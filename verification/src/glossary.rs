//! Glossary formats: plain text and HTML.

use vstd::prelude::*;

verus! {

/// Definition of a term in plain text format.
#[derive(Debug, Clone, Default, PartialEq, Eq, Hash)]
pub struct PlainText(pub String);

/// Definition of a term in HTML format.
#[derive(Debug, Clone, Default, PartialEq, Eq, Hash)]
pub struct Html(pub String);

} // verus!
