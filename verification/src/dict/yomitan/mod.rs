//! Records of the Yomitan dictionary format.

pub mod structured;

use vstd::prelude::*;

verus! {

/// A Yomitan glossary: popularity ranking, tags, and structured content.
#[derive(Debug)]
pub struct Glossary {
    pub popularity: i64,
    pub tags: Vec<GlossaryTag>,
    pub content: Vec<structured::Content>,
}

/// A frequency: an optional rank, and an optional display value.
#[derive(Debug, Clone, Default)]
pub struct Frequency {
    pub rank: Option<u64>,
    pub display: Option<String>,
}

/// A pitch accent: the mora the downstep is on (0 for none), and the morae
/// with a nasal or devoiced sound.
#[derive(Debug, Clone)]
pub struct Pitch {
    pub position: u64,
    pub nasal: Vec<u64>,
    pub devoice: Vec<u64>,
}

/// Categorises a glossary: a name, a category, a description, and its order
/// among the tags of its dictionary (higher is displayed later).
#[derive(Debug)]
pub struct GlossaryTag {
    pub name: String,
    pub category: String,
    pub description: String,
    pub order: i64,
}

impl Clone for GlossaryTag {
    fn clone(&self) -> (r: Self)
        ensures
            r == *self,
    {
        GlossaryTag {
            name: self.name.clone(),
            category: self.category.clone(),
            description: self.description.clone(),
            order: self.order,
        }
    }
}

} // verus!
