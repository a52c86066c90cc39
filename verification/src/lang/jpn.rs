//! Furigana: which part of a reading goes over which part of a headword.

use vstd::prelude::*;

verus! {

/// The text of furigana sections, as (headword part, reading part) pairs.
pub open spec fn sections_view(v: Seq<(String, String)>) -> Seq<(Seq<char>, Seq<char>)> {
    v.map_values(|p: (String, String)| (p.0@, p.1@))
}

/// The furigana of a headword/reading pair: `found`, the sections that the
/// JmdictFurigana data set gives the pair, when it has the pair, and
/// `fallback` otherwise.
///
/// The data set is looked up by the caller (`jmdict_furigana::get`), since
/// it can be read only once it has been loaded asynchronously.
pub fn furigana_parts(found: Option<Vec<(String, String)>>, fallback: Vec<(String, String)>) -> (r:
    Vec<(String, String)>)
    ensures
        sections_view(r@) == match found {
            Some(v) => sections_view(v@),
            None => sections_view(fallback@),
        },
{
    match found {
        Some(v) => v,
        None => fallback,
    }
}

} // verus!
