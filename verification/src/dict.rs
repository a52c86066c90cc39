//! Readings built from expression/reading part pairs, and the entry types
//! that group frequencies, pitches and glossaries by dictionary.

pub mod yomichan_audio;
pub mod yomitan;

use vstd::prelude::*;

use vstd::string::StringSliceAdditionalSpecFns;

use crate::text::push_str;

verus! {

/// The expression parts of a list of (expression, reading) pairs, joined.
pub open spec fn joined_firsts(ps: Seq<(&str, &str)>) -> Seq<char>
    decreases ps.len(),
{
    if ps.len() == 0 {
        Seq::empty()
    } else {
        joined_firsts(ps.drop_last()) + ps.last().0@
    }
}

/// The reading parts of a list of (expression, reading) pairs, joined.
pub open spec fn joined_seconds(ps: Seq<(&str, &str)>) -> Seq<char>
    decreases ps.len(),
{
    if ps.len() == 0 {
        Seq::empty()
    } else {
        joined_seconds(ps.drop_last()) + ps.last().1@
    }
}

/// The UTF-8 byte lengths of each pair's expression and reading part.
pub open spec fn part_lengths(ps: Seq<(&str, &str)>) -> Seq<(usize, usize)> {
    ps.map_values(|p: (&str, &str)| (p.0.spec_bytes().len() as usize, p.1.spec_bytes().len() as usize))
}

/// An expression with its reading, and, when built from pairs, the byte
/// lengths of each (expression part, reading part) pair.
#[derive(Debug, Clone, PartialEq, Eq)]
pub struct Reading {
    pub expression: String,
    pub reading: String,
    pub pair_indices: Vec<(usize, usize)>,
}

impl Reading {
    /// A reading with no pair information.
    pub fn from_no_pairs(expression: String, reading: String) -> (r: Reading)
        ensures
            r.expression@ == expression@,
            r.reading@ == reading@,
            r.pair_indices@.len() == 0,
    {
        Reading { expression, reading, pair_indices: Vec::new() }
    }

    /// Joins the expression parts and the reading parts of `pairs`, and
    /// records the byte length of each part.
    pub fn from_pairs(pairs: &[(&str, &str)]) -> (r: Reading)
        ensures
            r.expression@ == joined_firsts(pairs@),
            r.reading@ == joined_seconds(pairs@),
            r.pair_indices@ == part_lengths(pairs@),
    {
        let mut expression = String::new();
        let mut reading = String::new();
        let mut pair_indices: Vec<(usize, usize)> = Vec::new();
        let mut i: usize = 0;
        while i < pairs.len()
            invariant
                i <= pairs@.len(),
                expression@ == joined_firsts(pairs@.take(i as int)),
                reading@ == joined_seconds(pairs@.take(i as int)),
                pair_indices@ == part_lengths(pairs@.take(i as int)),
            decreases pairs@.len() - i,
        {
            let (e, rd) = pairs[i];
            push_str(&mut expression, e);
            push_str(&mut reading, rd);
            pair_indices.push((e.len(), rd.len()));
            proof {
                let t = pairs@.take(i as int + 1);
                assert(t.drop_last() =~= pairs@.take(i as int));
                assert(t.last() == pairs@[i as int]);
                assert(part_lengths(t) =~= part_lengths(pairs@.take(i as int)).push(
                    (e.spec_bytes().len() as usize, rd.spec_bytes().len() as usize),
                ));
            }
            i = i + 1;
        }
        proof {
            assert(pairs@.take(pairs@.len() as int) =~= pairs@);
        }
        Reading { expression, reading, pair_indices }
    }

    /// The expression this reading is for.
    pub fn expression(&self) -> (r: &str)
        ensures
            r@ == self.expression@,
    {
        self.expression.as_str()
    }

    /// The reading, in kana.
    pub fn reading(&self) -> (r: &str)
        ensures
            r@ == self.reading@,
    {
        self.reading.as_str()
    }
}

/// A frequency value, with an optional display string.
#[derive(Debug, Clone, PartialEq, Eq)]
pub struct Frequency {
    pub value: u64,
    pub display_value: Option<String>,
}

/// Frequencies of a term from one dictionary.
#[derive(Debug, Clone)]
pub struct FrequencySet {
    pub dictionary: String,
    pub frequencies: Vec<Frequency>,
}

/// A pitch accent position.
#[derive(Debug, Clone, Copy, PartialEq, Eq)]
pub struct Pitch {
    pub position: u16,
}

/// Pitches of a term from one dictionary.
#[derive(Debug, Clone)]
pub struct PitchSet {
    pub dictionary: String,
    pub pitches: Vec<Pitch>,
}

/// A glossary placeholder.
#[derive(Debug, Clone)]
pub struct Glossary {
    pub todo: String,
}

/// Glossaries of a term from one dictionary.
#[derive(Debug, Clone)]
pub struct GlossarySet {
    pub dictionary: String,
    pub glossaries: Vec<Glossary>,
}

/// Everything known about one expression.
#[derive(Debug, Clone)]
pub struct ExpressionEntry {
    pub reading: Reading,
    pub frequency_sets: Vec<FrequencySet>,
    pub pitch_sets: Vec<PitchSet>,
    pub glossary_sets: Vec<GlossarySet>,
}

/// The byte lengths recorded by [`Reading::from_pairs`] add up to the byte
/// lengths of the joined expression and reading.
pub proof fn lemma_pair_lengths_sum(ps: Seq<(&str, &str)>)
    requires
        forall|i: int|
            0 <= i < ps.len() ==> #[trigger] ps[i].0.spec_bytes().len() <= usize::MAX
                && ps[i].1.spec_bytes().len() <= usize::MAX,
    ensures
        sum_firsts(part_lengths(ps)) == crate::text::bytes_len(joined_firsts(ps)),
        sum_seconds(part_lengths(ps)) == crate::text::bytes_len(joined_seconds(ps)),
    decreases ps.len(),
{
    if ps.len() > 0 {
        assert forall|i: int| 0 <= i < ps.drop_last().len() implies #[trigger] ps.drop_last()[i].0.spec_bytes().len() <= usize::MAX
            && ps.drop_last()[i].1.spec_bytes().len() <= usize::MAX by {
            assert(ps.drop_last()[i] == ps[i]);
        }
        lemma_pair_lengths_sum(ps.drop_last());
        assert(ps[ps.len() - 1].0.spec_bytes().len() <= usize::MAX);
        assert(part_lengths(ps).drop_last() =~= part_lengths(ps.drop_last()));
        crate::text::lemma_encode_concat(joined_firsts(ps.drop_last()), ps.last().0@);
        crate::text::lemma_encode_concat(joined_seconds(ps.drop_last()), ps.last().1@);
    }
}

/// Sum of the first components.
pub open spec fn sum_firsts(s: Seq<(usize, usize)>) -> int
    decreases s.len(),
{
    if s.len() == 0 {
        0
    } else {
        sum_firsts(s.drop_last()) + s.last().0
    }
}

/// Sum of the second components.
pub open spec fn sum_seconds(s: Seq<(usize, usize)>) -> int
    decreases s.len(),
{
    if s.len() == 0 {
        0
    } else {
        sum_seconds(s.drop_last()) + s.last().1
    }
}

} // verus!
