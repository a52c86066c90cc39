//! The Yomitan dictionary format, specialized for Japanese.

pub mod html;
pub mod structured;

use vstd::prelude::*;

verus! {

/// Yomitan-specific glossary: tags and structured content.
#[derive(Debug)]
pub struct Glossary {
    pub tags: Vec<GlossaryTag>,
    pub content: Vec<structured::Content>,
}

/// Categorises a glossary: a name, a category, a description, and its order
/// among the tags of its dictionary (higher is displayed later).
#[derive(Debug, Clone)]
pub struct GlossaryTag {
    pub name: String,
    pub category: String,
    pub description: String,
    pub order: i64,
}

} // verus!
