//! Turning the records of a Yomitan dictionary archive into the engine's
//! records: tags, glossaries, frequencies and pitches.

use vstd::prelude::*;

use crate::dict::yomitan::{Glossary, GlossaryTag, Pitch};
use crate::dictionary::yomitan::{self as schema, FrequencyMode, PitchPosition, Tag};
use crate::structured::{Content, Element, ImageElement};
use crate::term::{normalized, opt_view, trim_str, trimmed, NormString, Term, TermPart};
use crate::num::{parse_i64, parsed_i64};
use crate::term::{DictionaryKind, DictionaryMeta};
use crate::text::{byte_len, bytes_len, chars_of, str_eq, string_of};

verus! {

/// Path of the index file inside a Yomitan archive.
pub const INDEX_PATH: &'static str = "index.json";

/// A term's tag, from the tag bank entry `raw`: the notes become the
/// description.
pub fn to_term_tag(raw: Tag) -> (r: GlossaryTag)
    ensures
        r.name == raw.name,
        r.category == raw.category,
        r.description == raw.notes,
        r.order == raw.order,
{
    GlossaryTag { name: raw.name, category: raw.category, description: raw.notes, order: raw.order }
}

/// Whether `s` starts with `p`.
pub open spec fn has_prefix(s: Seq<char>, p: Seq<char>) -> bool {
    p.len() <= s.len() && s.take(p.len() as int) == p
}

/// Whether `s` starts with `p` (as `str::starts_with`).
pub fn starts_with(s: &Vec<char>, p: &Vec<char>) -> (r: bool)
    ensures
        r == has_prefix(s@, p@),
{
    if p.len() > s.len() {
        return false;
    }
    let mut j: usize = 0;
    while j < p.len()
        invariant
            p@.len() <= s@.len(),
            j <= p@.len(),
            forall|k: int| 0 <= k < j ==> s@[k] == p@[k],
        decreases p@.len() - j,
    {
        if s[j] != p[j] {
            proof {
                assert(s@.take(p@.len() as int)[j as int] != p@[j as int]);
            }
            return false;
        }
        j = j + 1;
    }
    proof {
        assert(s@.take(p@.len() as int) =~= p@);
    }
    true
}

/// Index of the first tag whose name is a prefix of `s`, or `tags.len()`.
pub open spec fn first_prefix_tag(tags: Seq<GlossaryTag>, s: Seq<char>) -> int
    decreases tags.len(),
{
    if tags.len() == 0 {
        0
    } else if has_prefix(s, tags[0].name@) {
        0
    } else {
        1 + first_prefix_tag(tags.drop_first(), s)
    }
}

/// Whether every tag has a non-empty name.
pub open spec fn named(tags: Seq<GlossaryTag>) -> bool {
    forall|k: int| 0 <= k < tags.len() ==> (#[trigger] tags[k]).name@.len() > 0
}

/// The tags that `definition_tags` names, in order: after trimming, the
/// first tag (in the order of `tags`) whose name begins what is left is
/// taken and its name removed, until no tag name begins it.
pub open spec fn matched_tags(tags: Seq<GlossaryTag>, s: Seq<char>) -> Seq<GlossaryTag>
    decreases s.len(),
    when trimmed(s).len() <= s.len() && named(tags)
{
    let t = trimmed(s);
    let k = first_prefix_tag(tags, t);
    if 0 <= k < tags.len() && has_prefix(t, tags[k].name@) {
        seq![tags[k]] + matched_tags(tags, t.skip(tags[k].name@.len() as int))
    } else {
        Seq::empty()
    }
}

proof fn lemma_first_prefix_tag(tags: Seq<GlossaryTag>, s: Seq<char>)
    ensures
        0 <= first_prefix_tag(tags, s) <= tags.len(),
        first_prefix_tag(tags, s) < tags.len() ==> has_prefix(s, tags[first_prefix_tag(tags, s)].name@),
        forall|j: int| 0 <= j < first_prefix_tag(tags, s) ==> !has_prefix(s, #[trigger] tags[j].name@),
    decreases tags.len(),
{
    if tags.len() > 0 && !has_prefix(s, tags[0].name@) {
        lemma_first_prefix_tag(tags.drop_first(), s);
        assert forall|j: int| 0 <= j < first_prefix_tag(tags, s) implies !has_prefix(s, #[trigger] tags[j].name@) by {
            if j > 0 {
                assert(tags[j] == tags.drop_first()[j - 1]);
            }
        }
    }
}

/// The tags named by `definition_tags` (see [`matched_tags`]). Every tag
/// must have a non-empty name: a tag with an empty name would match without
/// end.
pub fn match_tags(all_tags: &Vec<GlossaryTag>, definition_tags: &str) -> (r: Vec<GlossaryTag>)
    requires
        named(all_tags@),
    ensures
        trimmed(definition_tags@).len() <= definition_tags@.len(),
        r@ == matched_tags(all_tags@, definition_tags@),
{
    let mut out: Vec<GlossaryTag> = Vec::new();
    let t0 = trim_str(definition_tags);
    let mut rest: Vec<char> = chars_of(t0);
    let ghost orig = definition_tags@;
    proof {
        assert(out@ + matched_tags(all_tags@, orig) =~= matched_tags(all_tags@, orig));
    }
    // `rest` always holds an already trimmed string; `pending` is the string
    // it was trimmed from.
    let ghost mut pending = orig;
    loop
        invariant
            named(all_tags@),
            orig == definition_tags@,
            trimmed(pending).len() <= pending.len(),
            rest@ == trimmed(pending),
            trimmed(orig).len() <= orig.len(),
            matched_tags(all_tags@, orig) == out@ + matched_tags(all_tags@, pending),
        decreases rest@.len(),
    {
        let ghost before = out@;
        let mut k: usize = 0;
        let mut found = false;
        while k < all_tags.len()
            invariant
                k <= all_tags@.len(),
                !found ==> forall|j: int| 0 <= j < k ==> !has_prefix(rest@, #[trigger] all_tags@[j].name@),
                found ==> k < all_tags@.len() && has_prefix(rest@, all_tags@[k as int].name@)
                    && forall|j: int| 0 <= j < k ==> !has_prefix(rest@, #[trigger] all_tags@[j].name@),
            ensures
                !found ==> forall|j: int| 0 <= j < all_tags@.len() ==> !has_prefix(rest@, #[trigger] all_tags@[j].name@),
                found ==> k < all_tags@.len() && has_prefix(rest@, all_tags@[k as int].name@)
                    && forall|j: int| 0 <= j < k ==> !has_prefix(rest@, #[trigger] all_tags@[j].name@),
            decreases all_tags@.len() - k,
        {
            let name = chars_of(all_tags[k].name.as_str());
            if starts_with(&rest, &name) {
                found = true;
                break;
            }
            k = k + 1;
        }
        proof {
            lemma_first_prefix_tag(all_tags@, rest@);
        }
        if !found {
            proof {
                if first_prefix_tag(all_tags@, rest@) < all_tags@.len() {
                    let w = first_prefix_tag(all_tags@, rest@);
                    assert(!has_prefix(rest@, all_tags@[w].name@));
                }
                assert(matched_tags(all_tags@, pending) =~= Seq::<GlossaryTag>::empty());
                assert(out@ + Seq::<GlossaryTag>::empty() =~= out@);
            }
            return out;
        }
        proof {
            let w = first_prefix_tag(all_tags@, rest@);
            if w < k {
                assert(!has_prefix(rest@, all_tags@[w].name@));
            }
            if w > k {
                assert(!has_prefix(rest@, all_tags@[k as int].name@));
            }
            assert(w == k);
        }
        let name_len = all_tags[k].name.as_str().unicode_len();
        let stripped = string_of(&rest, name_len, rest.len());
        out.push(all_tags[k].clone());
        let t = trim_str(stripped.as_str());
        let ghost next_pending = stripped@;
        proof {
            assert(all_tags@[k as int].name@.len() > 0);
            assert(stripped@ =~= rest@.skip(all_tags@[k as int].name@.len() as int));
            assert(matched_tags(all_tags@, pending) == seq![all_tags@[k as int]] + matched_tags(
                all_tags@,
                next_pending,
            ));
            assert(out@ =~= before.push(all_tags@[k as int]));
            assert(before + (seq![all_tags@[k as int]] + matched_tags(all_tags@, next_pending))
                =~= out@ + matched_tags(all_tags@, next_pending));
            pending = next_pending;
        }
        rest = chars_of(t);
    }
}

/// Byte length of a tag's name, the key tags are sorted by.
pub open spec fn name_len(t: GlossaryTag) -> int {
    bytes_len(t.name@)
}

/// Where `x` goes among the tags `s`: before the first tag with a longer
/// name.
pub open spec fn insert_point(s: Seq<GlossaryTag>, x: GlossaryTag) -> int
    decreases s.len(),
{
    if s.len() == 0 {
        0
    } else if name_len(s[0]) > name_len(x) {
        0
    } else {
        1 + insert_point(s.drop_first(), x)
    }
}

/// The tags sorted by name length, shortest first, tags with names of equal
/// length kept in their order (a stable sort).
pub open spec fn sorted_by_name_len(v: Seq<GlossaryTag>) -> Seq<GlossaryTag>
    decreases v.len(),
{
    if v.len() == 0 {
        Seq::empty()
    } else {
        let s = sorted_by_name_len(v.drop_last());
        s.insert(insert_point(s, v.last()), v.last())
    }
}

proof fn lemma_insert_point(s: Seq<GlossaryTag>, x: GlossaryTag)
    ensures
        0 <= insert_point(s, x) <= s.len(),
        forall|j: int| 0 <= j < insert_point(s, x) ==> name_len(#[trigger] s[j]) <= name_len(x),
        insert_point(s, x) < s.len() ==> name_len(s[insert_point(s, x)]) > name_len(x),
    decreases s.len(),
{
    if s.len() > 0 && name_len(s[0]) <= name_len(x) {
        lemma_insert_point(s.drop_first(), x);
        assert forall|j: int| 0 <= j < insert_point(s, x) implies name_len(#[trigger] s[j]) <= name_len(x) by {
            if j > 0 {
                assert(s[j] == s.drop_first()[j - 1]);
            }
        }
    }
}

/// Sorts tags by the byte length of their names, shortest first, keeping the
/// order of tags whose names are equally long.
pub fn sort_by_name_len(tags: Vec<GlossaryTag>) -> (r: Vec<GlossaryTag>)
    ensures
        r@ == sorted_by_name_len(tags@),
{
    let mut out: Vec<GlossaryTag> = Vec::new();
    let mut i: usize = 0;
    while i < tags.len()
        invariant
            i <= tags@.len(),
            out@ == sorted_by_name_len(tags@.take(i as int)),
        decreases tags@.len() - i,
    {
        let x = tags[i].clone();
        let xlen = byte_len(x.name.as_str());
        let mut j: usize = 0;
        while j < out.len() && byte_len(out[j].name.as_str()) <= xlen
            invariant
                j <= out@.len(),
                xlen == name_len(x),
                forall|m: int| 0 <= m < j ==> name_len(#[trigger] out@[m]) <= name_len(x),
            decreases out@.len() - j,
        {
            j = j + 1;
        }
        proof {
            lemma_insert_point(out@, x);
            let p = insert_point(out@, x);
            if p < j {
                assert(name_len(out@[p]) <= name_len(x));
            }
            if j < p {
                assert(name_len(out@[j as int]) <= name_len(x));
            }
            assert(p == j);
            let t = tags@.take(i as int + 1);
            assert(t.drop_last() =~= tags@.take(i as int));
            assert(t.last() == tags@[i as int]);
        }
        out.insert(j, x);
        i = i + 1;
    }
    proof {
        assert(tags@.take(tags@.len() as int) =~= tags@);
    }
    out
}

/// Sorted tags are in order of name length.
pub proof fn lemma_sorted_by_name_len_ordered(v: Seq<GlossaryTag>, i: int, j: int)
    requires
        0 <= i <= j < sorted_by_name_len(v).len(),
    ensures
        name_len(sorted_by_name_len(v)[i]) <= name_len(sorted_by_name_len(v)[j]),
    decreases v.len(),
{
    let s = sorted_by_name_len(v.drop_last());
    let x = v.last();
    lemma_insert_point(s, x);
    lemma_sorted_by_name_len_len(v.drop_last());
    let p = insert_point(s, x);
    let r = sorted_by_name_len(v);
    assert(r == s.insert(p, x));
    if i < j {
        if j < p {
            lemma_sorted_by_name_len_ordered(v.drop_last(), i, j);
        } else if j == p {
            assert(name_len(r[i]) <= name_len(x));
        } else if i < p {
            assert(r[j] == s[j - 1]);
            if p < s.len() {
                assert(name_len(s[p]) > name_len(x));
                if j - 1 > p {
                    lemma_sorted_by_name_len_ordered(v.drop_last(), p, j - 1);
                }
            }
            assert(name_len(r[i]) <= name_len(x));
        } else if i == p {
            assert(r[j] == s[j - 1]);
            assert(name_len(s[p]) > name_len(x));
            if j - 1 > p {
                lemma_sorted_by_name_len_ordered(v.drop_last(), p, j - 1);
            }
        } else {
            lemma_sorted_by_name_len_ordered(v.drop_last(), i - 1, j - 1);
        }
    }
}

/// Sorting keeps every tag, and adds none.
pub proof fn lemma_sorted_by_name_len_len(v: Seq<GlossaryTag>)
    ensures
        sorted_by_name_len(v).len() == v.len(),
        sorted_by_name_len(v).to_multiset() == v.to_multiset(),
    decreases v.len(),
{
    if v.len() > 0 {
        let s = sorted_by_name_len(v.drop_last());
        lemma_sorted_by_name_len_len(v.drop_last());
        lemma_insert_point(s, v.last());
        vstd::seq_lib::to_multiset_insert(s, insert_point(s, v.last()), v.last());
        assert(v =~= v.drop_last().push(v.last()));
        vstd::seq_lib::to_multiset_build(v.drop_last(), v.last());
        assert(sorted_by_name_len(v) == s.insert(insert_point(s, v.last()), v.last()));
        assert(sorted_by_name_len(v).to_multiset() == s.to_multiset().insert(v.last()));
        assert(v.to_multiset() == v.drop_last().push(v.last()).to_multiset());
    } else {
        assert(v =~= sorted_by_name_len(v));
    }
}

/// A frequency value: a rank (lower is more frequent) or an occurrence count.
#[derive(Debug, Clone, Copy, PartialEq, Eq, Hash, Structural)]
pub enum FrequencyValue {
    Rank(i64),
    Occurrence(i64),
}

/// A frequency record: an optional value, and an optional display string.
#[derive(Debug, Clone)]
pub struct FrequencyRecord {
    pub value: Option<FrequencyValue>,
    pub display: Option<String>,
}

/// A frequency as a term-meta bank gives it: a number, a string, or a value
/// with a display string.
#[derive(Debug, Clone)]
pub enum FrequencyData {
    Number(i64),
    String(String),
    Complex { value: i64, display_value: Option<String> },
}

/// Frequency metadata, with or without the reading it is for.
#[derive(Debug, Clone)]
pub enum TermMetaFrequencyData {
    Generic(FrequencyData),
    WithReading { reading: String, frequency: FrequencyData },
}

/// The value a number stands for under a frequency mode.
pub open spec fn value_from(mode: FrequencyMode, n: i64) -> FrequencyValue {
    match mode {
        FrequencyMode::OccurrenceBased => FrequencyValue::Occurrence(n),
        FrequencyMode::RankBased => FrequencyValue::Rank(n),
    }
}

fn value_of(mode: FrequencyMode, n: i64) -> (r: FrequencyValue)
    ensures
        r == value_from(mode, n),
{
    match mode {
        FrequencyMode::OccurrenceBased => FrequencyValue::Occurrence(n),
        FrequencyMode::RankBased => FrequencyValue::Rank(n),
    }
}

/// The record a frequency datum makes: a number is a value; a string is a
/// value if, trimmed, it is a decimal `i64`, and otherwise a display string;
/// a complex datum gives both.
pub open spec fn frequency_record(mode: FrequencyMode, data: FrequencyData, r: FrequencyRecord) -> bool {
    match data {
        FrequencyData::Number(n) => r.value == Some(value_from(mode, n)) && r.display is None,
        FrequencyData::String(text) => match parsed_i64(trimmed(text@)) {
            Some(n) => r.value == Some(value_from(mode, n)) && r.display is None,
            None => r.value is None && r.display == Some(text),
        },
        FrequencyData::Complex { value, display_value } => r.value == Some(value_from(mode, value))
            && r.display == display_value,
    }
}

/// The frequency record of a frequency datum under `mode` (see
/// [`frequency_record`]).
pub fn to_frequency(mode: FrequencyMode, data: FrequencyData) -> (r: FrequencyRecord)
    ensures
        frequency_record(mode, data, r),
{
    match data {
        FrequencyData::Number(n) => FrequencyRecord { value: Some(value_of(mode, n)), display: None },
        FrequencyData::String(text) => {
            let parsed = parse_i64(trim_str(text.as_str()));
            match parsed {
                Some(n) => FrequencyRecord { value: Some(value_of(mode, n)), display: None },
                None => FrequencyRecord { value: None, display: Some(text) },
            }
        },
        FrequencyData::Complex { value, display_value } => FrequencyRecord {
            value: Some(value_of(mode, value)),
            display: display_value,
        },
    }
}

/// The frequency record of a frequency entry, and the reading it is for.
pub fn to_frequency_and_reading(mode: FrequencyMode, raw: TermMetaFrequencyData) -> (r: (
    FrequencyRecord,
    Option<String>,
))
    ensures
        match raw {
            TermMetaFrequencyData::Generic(data) => frequency_record(mode, data, r.0) && r.1 is None,
            TermMetaFrequencyData::WithReading { reading, frequency } => frequency_record(
                mode,
                frequency,
                r.0,
            ) && r.1 == Some(reading),
        },
{
    match raw {
        TermMetaFrequencyData::Generic(data) => (to_frequency(mode, data), None),
        TermMetaFrequencyData::WithReading { reading, frequency } => (
            to_frequency(mode, frequency),
            Some(reading),
        ),
    }
}

/// The positions an optional pitch position names.
pub open spec fn positions_of(raw: Option<PitchPosition>) -> Seq<u64> {
    match raw {
        None => Seq::empty(),
        Some(PitchPosition::One(p)) => seq![p],
        Some(PitchPosition::Many(ps)) => ps@,
    }
}

/// The mora positions that an optional pitch position names.
pub fn to_pitch_positions(raw: Option<PitchPosition>) -> (r: Vec<u64>)
    ensures
        r@ == positions_of(raw),
{
    match raw {
        None => Vec::new(),
        Some(PitchPosition::One(position)) => vec![position],
        Some(PitchPosition::Many(positions)) => positions,
    }
}

/// The pitch records of a pitch entry, each with the entry's reading.
pub fn to_pitches_and_readings(raw: schema::TermMetaPitchData) -> (r: Vec<(Pitch, String)>)
    ensures
        r@.len() == raw.pitches@.len(),
        forall|k: int|
            0 <= k < r@.len() ==> {
                &&& (#[trigger] r@[k]).0.position == raw.pitches@[k].position
                &&& r@[k].0.nasal@ == positions_of(raw.pitches@[k].nasal)
                &&& r@[k].0.devoice@ == positions_of(raw.pitches@[k].devoice)
                &&& r@[k].1@ == raw.reading@
            },
{
    let mut out: Vec<(Pitch, String)> = Vec::new();
    let mut i: usize = 0;
    while i < raw.pitches.len()
        invariant
            i <= raw.pitches@.len(),
            out@.len() == i,
            forall|k: int|
                0 <= k < i ==> {
                    &&& (#[trigger] out@[k]).0.position == raw.pitches@[k].position
                    &&& out@[k].0.nasal@ == positions_of(raw.pitches@[k].nasal)
                    &&& out@[k].0.devoice@ == positions_of(raw.pitches@[k].devoice)
                    &&& out@[k].1@ == raw.reading@
                },
        decreases raw.pitches@.len() - i,
    {
        let p = &raw.pitches[i];
        let nasal = match &p.nasal {
            None => Vec::new(),
            Some(PitchPosition::One(position)) => vec![*position],
            Some(PitchPosition::Many(positions)) => copy_u64s(positions),
        };
        let devoice = match &p.devoice {
            None => Vec::new(),
            Some(PitchPosition::One(position)) => vec![*position],
            Some(PitchPosition::Many(positions)) => copy_u64s(positions),
        };
        proof {
            assert(nasal@ =~= positions_of(p.nasal));
            assert(devoice@ =~= positions_of(p.devoice));
        }
        out.push((Pitch { position: p.position, nasal, devoice }, raw.reading.clone()));
        i = i + 1;
    }
    out
}

pub(crate) fn copy_u64s(v: &Vec<u64>) -> (r: Vec<u64>)
    ensures
        r@ == v@,
{
    let mut out: Vec<u64> = Vec::new();
    let mut i: usize = 0;
    while i < v.len()
        invariant
            i <= v@.len(),
            out@ == v@.take(i as int),
        decreases v@.len() - i,
    {
        out.push(v[i]);
        proof {
            assert(v@.take(i as int + 1) =~= v@.take(i as int).push(v@[i as int]));
        }
        i = i + 1;
    }
    proof {
        assert(v@.take(v@.len() as int) =~= v@);
    }
    out
}

/// The content a glossary entry contributes: none for a deinflection, the
/// text for a string or text entry, an image element for an image, and the
/// structured content itself.
pub open spec fn content_of(raw: schema::Glossary) -> Option<Content> {
    match raw {
        schema::Glossary::Deinflection(_) => None,
        schema::Glossary::String(text) => Some(Content::String(text)),
        schema::Glossary::Content(schema::GlossaryContent::Text { text }) => Some(Content::String(text)),
        schema::Glossary::Content(schema::GlossaryContent::Image(base)) => Some(
            Content::Element(
                Box::new(
                    Element::Img(
                        ImageElement {
                            base,
                            vertical_align: None,
                            border: None,
                            border_radius: None,
                            size_units: None,
                        },
                    ),
                ),
            ),
        ),
        schema::Glossary::Content(schema::GlossaryContent::StructuredContent { content }) => Some(content),
    }
}

/// The content of a glossary entry (see [`content_of`]).
pub fn to_content(raw: schema::Glossary) -> (r: Option<Content>)
    ensures
        r == content_of(raw),
{
    match raw {
        schema::Glossary::Deinflection(_) => None,
        schema::Glossary::String(text) => Some(Content::String(text)),
        schema::Glossary::Content(schema::GlossaryContent::Text { text }) => Some(Content::String(text)),
        schema::Glossary::Content(schema::GlossaryContent::Image(base)) => Some(
            Content::Element(
                Box::new(
                    Element::Img(
                        ImageElement {
                            base,
                            vertical_align: None,
                            border: None,
                            border_radius: None,
                            size_units: None,
                        },
                    ),
                ),
            ),
        ),
        schema::Glossary::Content(schema::GlossaryContent::StructuredContent { content }) => Some(content),
    }
}

/// The contents of a list of glossary entries, skipping those with none.
pub open spec fn contents_of(gs: Seq<schema::Glossary>) -> Seq<Content>
    decreases gs.len(),
{
    if gs.len() == 0 {
        Seq::empty()
    } else {
        let rest = contents_of(gs.drop_last());
        match content_of(gs.last()) {
            Some(c) => rest.push(c),
            None => rest,
        }
    }
}

/// A term that has neither a headword nor a reading.
#[derive(Debug, Clone, Copy, PartialEq, Eq)]
pub struct NoHeadwordOrReading;

/// What importing one term entry writes: the term, its glossary record, and
/// its frequency (the entry's score, as an occurrence count).
#[derive(Debug)]
pub struct TermImport {
    pub term: Term,
    pub glossary: Glossary,
    pub frequency: FrequencyValue,
}

/// The definition tags of a term entry, or the empty string.
pub open spec fn definition_tags_of(raw: schema::Term) -> Seq<char> {
    match raw.definition_tags {
        Some(t) => t@,
        None => Seq::empty(),
    }
}

/// Whether a term entry has neither a headword nor a reading.
pub open spec fn term_fails(raw: schema::Term) -> bool {
    normalized(raw.expression@) is None && normalized(raw.reading@) is None
}

/// Whether `r` is what importing the term entry `raw` with the tags `tags`
/// gives: an error if it has neither a headword nor a reading; otherwise the
/// term, the glossary (popularity from the score, the tags its definition
/// tags name, its contents) and the frequency.
pub open spec fn term_import_ok(
    raw: schema::Term,
    tags: Seq<GlossaryTag>,
    r: Result<TermImport, NoHeadwordOrReading>,
) -> bool {
    &&& term_fails(raw) ==> r is Err
    &&& !term_fails(raw) ==> (r matches Ok(t) && {
        &&& t.term.headword_of() == normalized(raw.expression@)
        &&& t.term.reading_of() == normalized(raw.reading@)
        &&& t.glossary.popularity == raw.score
        &&& t.glossary.tags@ == matched_tags(tags, definition_tags_of(raw))
        &&& t.glossary.content@ == contents_of(raw.glossary@)
        &&& t.frequency == FrequencyValue::Occurrence(raw.score)
    })
}

/// The records of a term entry: an error if neither its expression nor its
/// reading normalizes to a non-empty string; otherwise the term, the
/// glossary (popularity from the score, the tags its definition tags name,
/// its contents) and the frequency.
pub fn term_records(raw: schema::Term, all_tags: &Vec<GlossaryTag>) -> (r: Result<TermImport, NoHeadwordOrReading>)
    requires
        named(all_tags@),
    ensures
        term_import_ok(raw, all_tags@, r),
{
    let schema::Term { expression, reading, definition_tags, score, glossary, .. } = raw;
    let term = match Term::new(expression, reading) {
        Some(t) => t,
        None => return Err(NoHeadwordOrReading),
    };
    let tags = match &definition_tags {
        Some(t) => match_tags(all_tags, t.as_str()),
        None => {
            let empty = "";
            proof {
                reveal_strlit("");
                assert(empty@ =~= Seq::<char>::empty());
            }
            match_tags(all_tags, empty)
        },
    };
    let mut content: Vec<Content> = Vec::new();
    let mut rest = glossary;
    let ghost all = rest@;
    let mut i: usize = 0;
    let n = rest.len();
    while i < n
        invariant
            n == all.len(),
            i <= n,
            rest@ == all.skip(i as int),
            content@ == contents_of(all.take(i as int)),
        decreases n - i,
    {
        let g = rest.remove(0);
        proof {
            assert(g == all[i as int]);
            let t = all.take(i as int + 1);
            assert(t.drop_last() =~= all.take(i as int));
            assert(t.last() == all[i as int]);
            assert(rest@ =~= all.skip(i as int + 1));
        }
        match to_content(g) {
            Some(c) => content.push(c),
            None => {},
        }
        i = i + 1;
    }
    proof {
        assert(all.take(n as int) =~= all);
        assert(term.headword_of() == normalized(raw.expression@));
        assert(term.reading_of() == normalized(raw.reading@));
        assert(tags@ == matched_tags(all_tags@, definition_tags_of(raw)));
        assert(content@ == contents_of(raw.glossary@));
    }
    Ok(TermImport {
        term,
        glossary: Glossary { popularity: score, tags, content },
        frequency: FrequencyValue::Occurrence(score),
    })
}

/// A term-meta entry as an archive gives it: an expression and its data.
#[derive(Debug)]
pub struct TermMetaEntry {
    pub expression: String,
    pub data: TermMetaData,
}

/// The data of a term-meta entry.
#[derive(Debug)]
pub enum TermMetaData {
    Frequency(TermMetaFrequencyData),
    Pitch(schema::TermMetaPitchData),
    Phonetic(schema::TermMetaPhoneticData),
}

/// A record made from term metadata.
#[derive(Debug)]
pub enum MetaRecord {
    Frequency(FrequencyRecord),
    Pitch(Pitch),
}

/// The reading a frequency entry is for, if any.
pub open spec fn frequency_reading(raw: TermMetaFrequencyData) -> Option<Seq<char>> {
    match raw {
        TermMetaFrequencyData::Generic(_) => None,
        TermMetaFrequencyData::WithReading { reading, .. } => normalized(reading@),
    }
}

/// The frequency mode, rank-based when absent.
pub open spec fn mode_or_rank(mode: Option<FrequencyMode>) -> FrequencyMode {
    match mode {
        Some(m) => m,
        None => FrequencyMode::RankBased,
    }
}

/// The frequency datum of a frequency entry.
pub open spec fn frequency_data(f: TermMetaFrequencyData) -> FrequencyData {
    match f {
        TermMetaFrequencyData::Generic(d) => d,
        TermMetaFrequencyData::WithReading { frequency, .. } => frequency,
    }
}

/// Whether `v` is the single frequency record of the term `(h, rd)`.
pub open spec fn frequency_result(
    v: Seq<(Term, MetaRecord)>,
    h: Option<Seq<char>>,
    rd: Option<Seq<char>>,
    mode: FrequencyMode,
    data: FrequencyData,
) -> bool {
    &&& v.len() == 1
    &&& v[0].0.headword_of() == h
    &&& v[0].0.reading_of() == rd
    &&& match v[0].1 {
        MetaRecord::Frequency(fr) => frequency_record(mode, data, fr),
        _ => false,
    }
}

/// Whether `v` holds one pitch record per pitch, each for the term `(h, rd)`.
pub open spec fn pitch_result(
    v: Seq<(Term, MetaRecord)>,
    h: Option<Seq<char>>,
    rd: Option<Seq<char>>,
    pitches: Seq<schema::Pitch>,
) -> bool {
    &&& v.len() == pitches.len()
    &&& forall|k: int|
        0 <= k < v.len() ==> {
            &&& (#[trigger] v[k]).0.headword_of() == h
            &&& v[k].0.reading_of() == rd
            &&& match v[k].1 {
                MetaRecord::Pitch(pr) => {
                    &&& pr.position == pitches[k].position
                    &&& pr.nasal@ == positions_of(pitches[k].nasal)
                    &&& pr.devoice@ == positions_of(pitches[k].devoice)
                },
                _ => false,
            }
        }
}

/// Whether a term-meta entry gives no term: a frequency, or a non-empty list
/// of pitches, for neither a headword nor a reading.
pub open spec fn meta_fails(meta: TermMetaEntry) -> bool {
    match meta.data {
        TermMetaData::Frequency(f) => normalized(meta.expression@) is None && frequency_reading(f) is None,
        TermMetaData::Pitch(p) => p.pitches@.len() > 0 && normalized(meta.expression@) is None && normalized(
            p.reading@,
        ) is None,
        TermMetaData::Phonetic(_) => false,
    }
}

/// Whether `r` is what importing the term-meta entry `meta` gives under the
/// frequency mode `mode`: an error if it gives no term; otherwise one
/// frequency record, one record per pitch, or nothing for phonetic data.
pub open spec fn meta_import_ok(
    mode: Option<FrequencyMode>,
    meta: TermMetaEntry,
    r: Result<Vec<(Term, MetaRecord)>, NoHeadwordOrReading>,
) -> bool {
    &&& meta_fails(meta) ==> r is Err
    &&& !meta_fails(meta) ==> match meta.data {
        TermMetaData::Frequency(f) => match r {
            Ok(v) => frequency_result(
                v@,
                normalized(meta.expression@),
                frequency_reading(f),
                mode_or_rank(mode),
                frequency_data(f),
            ),
            Err(_) => false,
        },
        TermMetaData::Pitch(p) => match r {
            Ok(v) => pitch_result(v@, normalized(meta.expression@), normalized(p.reading@), p.pitches@),
            Err(_) => false,
        },
        TermMetaData::Phonetic(_) => r matches Ok(v) && v@.len() == 0,
    }
}

/// The records of a term-meta entry, each with its term. A frequency entry
/// makes one record, for the term of the (normalized) expression and
/// reading, under `mode` (rank-based when absent); a pitch entry makes one
/// record per pitch, for the term of the expression and the entry's reading;
/// a phonetic entry makes none. It is an error when a term would have
/// neither headword nor reading.
pub fn term_meta_records(mode: Option<FrequencyMode>, meta: TermMetaEntry) -> (r: Result<
    Vec<(Term, MetaRecord)>,
    NoHeadwordOrReading,
>)
    ensures
        meta_import_ok(mode, meta, r),
{
    let headword = NormString::new(meta.expression.as_str());
    let ghost h = normalized(meta.expression@);
    proof {
        assert(opt_view(headword) == h);
    }
    match meta.data {
        TermMetaData::Frequency(frequency) => {
            let m = match mode {
                Some(m) => m,
                None => FrequencyMode::RankBased,
            };
            let ghost f = frequency;
            let (record, reading) = to_frequency_and_reading(m, frequency);
            proof {
                assert(opt_view(headword) == normalized(meta.expression@));
                assert(reading.part() == frequency_reading(f));
            }
            let term = match Term::new(headword, reading) {
                Some(t) => t,
                None => return Err(NoHeadwordOrReading),
            };
            let v = vec![(term, MetaRecord::Frequency(record))];
            proof {
                assert(v@[0].0 == term);
            }
            Ok(v)
        },
        TermMetaData::Pitch(pitch) => {
            let ghost pitches = pitch.pitches@;
            let ghost reading = pitch.reading@;
            let pairs = to_pitches_and_readings(pitch);
            let mut out: Vec<(Term, MetaRecord)> = Vec::new();
            let mut rest = pairs;
            let ghost all = rest@;
            let n = rest.len();
            let mut i: usize = 0;
            while i < n
                invariant
                    opt_view(headword) == h,
                    h == normalized(meta.expression@),
                    meta.data matches TermMetaData::Pitch(q) && q.reading@ == reading && q.pitches@ == pitches,
                    n == all.len(),
                    all.len() == pitches.len(),
                    i <= n,
                    rest@ == all.skip(i as int),
                    out@.len() == i,
                    forall|k: int|
                        0 <= k < all.len() ==> {
                            &&& (#[trigger] all[k]).0.position == pitches[k].position
                            &&& all[k].0.nasal@ == positions_of(pitches[k].nasal)
                            &&& all[k].0.devoice@ == positions_of(pitches[k].devoice)
                            &&& all[k].1@ == reading
                        },
                    pitch_result(out@, opt_view(headword), normalized(reading), pitches.take(i as int)),
                decreases n - i,
            {
                let (record, rd) = rest.remove(0);
                proof {
                    assert((record, rd) == all[i as int]);
                    assert(rest@ =~= all.skip(i as int + 1));
                }
                let ghost rdv = rd@;
                let ghost rec = record;
                let hw = match &headword {
                    Some(n) => Some(n.clone()),
                    None => None,
                };
                proof {
                    assert(opt_view(hw) == h);
                }
                let term = match Term::new(hw, Some(rd)) {
                    Some(t) => t,
                    None => {
                        proof {
                            assert(rdv == reading);
                            assert(normalized(reading) is None);
                            assert(pitches.len() > 0);
                            assert(h is None);
                        }
                        return Err(NoHeadwordOrReading);
                    },
                };
                let ghost before = out@;
                out.push((term, MetaRecord::Pitch(record)));
                proof {
                    assert(pitches.take(i as int + 1).len() == i + 1);
                    assert forall|k: int| 0 <= k < i + 1 implies pitches.take(i as int + 1)[k] == #[trigger] pitches[k] by {}
                    assert(pitch_result(before, opt_view(headword), normalized(reading), pitches.take(i as int)));
                    assert forall|k: int| 0 <= k < out@.len() implies {
                        &&& (#[trigger] out@[k]).0.headword_of() == opt_view(headword)
                        &&& out@[k].0.reading_of() == normalized(reading)
                        &&& match out@[k].1 {
                            MetaRecord::Pitch(pr) => {
                                &&& pr.position == pitches.take(i as int + 1)[k].position
                                &&& pr.nasal@ == positions_of(pitches.take(i as int + 1)[k].nasal)
                                &&& pr.devoice@ == positions_of(pitches.take(i as int + 1)[k].devoice)
                            },
                            _ => false,
                        }
                    } by {
                        if k < i {
                            assert(out@[k] == before[k]);
                            assert(pitches.take(i as int)[k] == pitches[k]);
                        } else {
                            assert(all[k].0 == rec && all[k].1@ == rdv);
                        }
                    }
                }
                i = i + 1;
            }
            proof {
                assert(pitches.take(n as int) =~= pitches);
                if pitches.len() > 0 && h is None && normalized(reading) is None {
                    let t = out@[0].0;
                    assert(t.headword_of() == h && t.reading_of() == normalized(reading));
                    assert(false);
                }
            }
            Ok(out)
        },
        TermMetaData::Phonetic(_) => Ok(Vec::new()),
    }
}

/// The metadata of a Yomitan dictionary from its index: the title as name,
/// the revision as version, and the index's description, URL and
/// attribution.
pub fn meta_from_index(index: &schema::Index) -> (r: DictionaryMeta)
    ensures
        r.kind == DictionaryKind::Yomitan,
        r.name@ == index.title@,
        r.version == Some(index.revision),
        r.description == index.description,
        r.url == index.url,
        r.attribution == index.attribution,
{
    let mut meta = DictionaryMeta::new(DictionaryKind::Yomitan, index.title.clone());
    meta.version = Some(index.revision.clone());
    meta.description = index.description.clone();
    meta.url = index.url.clone();
    meta.attribution = index.attribution.clone();
    meta
}

/// Whether one of the archive's file names is the index file.
pub fn has_index(file_names: &Vec<String>) -> (r: bool)
    ensures
        r == exists|k: int| 0 <= k < file_names@.len() && (#[trigger] file_names@[k])@ == INDEX_PATH@,
{
    let mut i: usize = 0;
    while i < file_names.len()
        invariant
            i <= file_names@.len(),
            forall|k: int| 0 <= k < i ==> (#[trigger] file_names@[k])@ != INDEX_PATH@,
        decreases file_names@.len() - i,
    {
        if str_eq(file_names[i].as_str(), INDEX_PATH) {
            return true;
        }
        i = i + 1;
    }
    false
}

/// Whether the regular expression `pattern` matches somewhere in
/// `haystack`: `None` if `pattern` is not a valid expression.
pub uninterp spec fn regex_match(pattern: Seq<char>, haystack: Seq<char>) -> Option<bool>;

/// Compiles `pattern` and tests it against `haystack`.
///
/// Trusted wrapper over `regex::Regex::new` followed by `Regex::is_match`;
/// the outcome, a function of the two strings alone, is named
/// [`regex_match`]. What the `regex` crate matches is not restated.
#[verifier::external_body]
fn regex_is_match(pattern: &str, haystack: &str) -> (r: Option<bool>)
    ensures
        r == regex_match(pattern@, haystack@),
{
    match regex::Regex::new(pattern) {
        Ok(re) => Some(re.is_match(haystack)),
        Err(_) => None,
    }
}

/// File-name pattern of tag banks.
pub const TAG_BANK_PATTERN: &'static str = "tag_bank_([0-9]+?)\\.json";

/// File-name pattern of term banks.
pub const TERM_BANK_PATTERN: &'static str = "term_bank_([0-9]+?)\\.json";

/// File-name pattern of term-meta banks.
pub const TERM_META_BANK_PATTERN: &'static str = "term_meta_bank_([0-9]+?)\\.json";

/// File-name pattern of kanji banks.
pub const KANJI_BANK_PATTERN: &'static str = "kanji_bank_([0-9]+?)\\.json";

/// File-name pattern of kanji-meta banks.
pub const KANJI_META_BANK_PATTERN: &'static str = "kanji_meta_bank_([0-9]+?)\\.json";

/// Kind of bank file in a Yomitan archive.
#[derive(Debug, Clone, Copy, PartialEq, Eq, Hash, Structural)]
pub enum BankKind {
    Tag,
    Term,
    TermMeta,
    Kanji,
    KanjiMeta,
}

/// Whether `pattern` matches `name` (an invalid pattern matches nothing).
pub open spec fn matches(pattern: Seq<char>, name: Seq<char>) -> bool {
    regex_match(pattern, name) == Some(true)
}

/// The bank kind given which of the tag, term, term-meta, kanji and
/// kanji-meta patterns match a file name: the first that matches, in that
/// order.
pub open spec fn kind_from_matches(tag: bool, term: bool, term_meta: bool, kanji: bool, kanji_meta: bool) -> Option<
    BankKind,
> {
    if tag {
        Some(BankKind::Tag)
    } else if term {
        Some(BankKind::Term)
    } else if term_meta {
        Some(BankKind::TermMeta)
    } else if kanji {
        Some(BankKind::Kanji)
    } else if kanji_meta {
        Some(BankKind::KanjiMeta)
    } else {
        None
    }
}

/// Kind of the bank a file name names: the first of the tag, term,
/// term-meta, kanji and kanji-meta patterns that matches it.
pub open spec fn bank_kind_of(name: Seq<char>) -> Option<BankKind> {
    kind_from_matches(
        matches(TAG_BANK_PATTERN@, name),
        matches(TERM_BANK_PATTERN@, name),
        matches(TERM_META_BANK_PATTERN@, name),
        matches(KANJI_BANK_PATTERN@, name),
        matches(KANJI_META_BANK_PATTERN@, name),
    )
}

/// The bank kind given the outcomes of the five patterns (see
/// [`kind_from_matches`]).
pub fn bank_kind_from_matches(tag: bool, term: bool, term_meta: bool, kanji: bool, kanji_meta: bool) -> (r:
    Option<BankKind>)
    ensures
        r == kind_from_matches(tag, term, term_meta, kanji, kanji_meta),
{
    if tag {
        Some(BankKind::Tag)
    } else if term {
        Some(BankKind::Term)
    } else if term_meta {
        Some(BankKind::TermMeta)
    } else if kanji {
        Some(BankKind::Kanji)
    } else if kanji_meta {
        Some(BankKind::KanjiMeta)
    } else {
        None
    }
}

fn pattern_matches(pattern: &str, name: &str) -> (r: bool)
    ensures
        r == matches(pattern@, name@),
{
    match regex_is_match(pattern, name) {
        Some(b) => b,
        None => false,
    }
}

/// Kind of the bank a file name names (see [`bank_kind_of`]).
pub fn bank_kind(name: &str) -> (r: Option<BankKind>)
    ensures
        r == bank_kind_of(name@),
{
    let tag = pattern_matches(TAG_BANK_PATTERN, name);
    let term = pattern_matches(TERM_BANK_PATTERN, name);
    let term_meta = pattern_matches(TERM_META_BANK_PATTERN, name);
    let kanji = pattern_matches(KANJI_BANK_PATTERN, name);
    let kanji_meta = pattern_matches(KANJI_META_BANK_PATTERN, name);
    bank_kind_from_matches(tag, term, term_meta, kanji, kanji_meta)
}

/// The entries of an archive (index, file name) whose file is a bank of the
/// given kind, in archive order.
pub open spec fn banks_of_kind(names: Seq<String>, kind: BankKind) -> Seq<(usize, Seq<char>)>
    decreases names.len(),
{
    if names.len() == 0 {
        Seq::empty()
    } else {
        let rest = banks_of_kind(names.drop_last(), kind);
        if bank_kind_of(names.last()@) == Some(kind) {
            rest.push(((names.len() - 1) as usize, names.last()@))
        } else {
            rest
        }
    }
}

/// The bank files of an archive, by kind, each with its entry index.
#[derive(Debug)]
pub struct BankPaths {
    pub tag: Vec<(usize, String)>,
    pub term: Vec<(usize, String)>,
    pub term_meta: Vec<(usize, String)>,
    pub kanji: Vec<(usize, String)>,
    pub kanji_meta: Vec<(usize, String)>,
}

/// Views of a list of (index, file name) pairs.
pub open spec fn path_views(v: Seq<(usize, String)>) -> Seq<(usize, Seq<char>)> {
    v.map_values(|p: (usize, String)| (p.0, p.1@))
}

/// Sorts the file names of an archive into bank kinds (see
/// [`banks_of_kind`]).
pub fn bank_paths(names: &Vec<String>) -> (r: BankPaths)
    ensures
        path_views(r.tag@) == banks_of_kind(names@, BankKind::Tag),
        path_views(r.term@) == banks_of_kind(names@, BankKind::Term),
        path_views(r.term_meta@) == banks_of_kind(names@, BankKind::TermMeta),
        path_views(r.kanji@) == banks_of_kind(names@, BankKind::Kanji),
        path_views(r.kanji_meta@) == banks_of_kind(names@, BankKind::KanjiMeta),
{
    let mut r = BankPaths {
        tag: Vec::new(),
        term: Vec::new(),
        term_meta: Vec::new(),
        kanji: Vec::new(),
        kanji_meta: Vec::new(),
    };
    let mut i: usize = 0;
    proof {
        assert(path_views(r.tag@) =~= Seq::<(usize, Seq<char>)>::empty());
        assert(path_views(r.term@) =~= Seq::<(usize, Seq<char>)>::empty());
        assert(path_views(r.term_meta@) =~= Seq::<(usize, Seq<char>)>::empty());
        assert(path_views(r.kanji@) =~= Seq::<(usize, Seq<char>)>::empty());
        assert(path_views(r.kanji_meta@) =~= Seq::<(usize, Seq<char>)>::empty());
    }
    while i < names.len()
        invariant
            i <= names@.len(),
            path_views(r.tag@) == banks_of_kind(names@.take(i as int), BankKind::Tag),
            path_views(r.term@) == banks_of_kind(names@.take(i as int), BankKind::Term),
            path_views(r.term_meta@) == banks_of_kind(names@.take(i as int), BankKind::TermMeta),
            path_views(r.kanji@) == banks_of_kind(names@.take(i as int), BankKind::Kanji),
            path_views(r.kanji_meta@) == banks_of_kind(names@.take(i as int), BankKind::KanjiMeta),
        decreases names@.len() - i,
    {
        let name = &names[i];
        let kind = bank_kind(name.as_str());
        let ghost before = r;
        proof {
            let t = names@.take(i as int + 1);
            assert(t.drop_last() =~= names@.take(i as int));
            assert(t.last() == names@[i as int]);
        }
        match kind {
            Some(BankKind::Tag) => r.tag.push((i, name.clone())),
            Some(BankKind::Term) => r.term.push((i, name.clone())),
            Some(BankKind::TermMeta) => r.term_meta.push((i, name.clone())),
            Some(BankKind::Kanji) => r.kanji.push((i, name.clone())),
            Some(BankKind::KanjiMeta) => r.kanji_meta.push((i, name.clone())),
            None => {},
        }
        proof {
            assert(path_views(r.tag@) =~= if kind == Some(BankKind::Tag) {
                path_views(before.tag@).push((i, name@))
            } else {
                path_views(before.tag@)
            });
            assert(path_views(r.term@) =~= if kind == Some(BankKind::Term) {
                path_views(before.term@).push((i, name@))
            } else {
                path_views(before.term@)
            });
            assert(path_views(r.term_meta@) =~= if kind == Some(BankKind::TermMeta) {
                path_views(before.term_meta@).push((i, name@))
            } else {
                path_views(before.term_meta@)
            });
            assert(path_views(r.kanji@) =~= if kind == Some(BankKind::Kanji) {
                path_views(before.kanji@).push((i, name@))
            } else {
                path_views(before.kanji@)
            });
            assert(path_views(r.kanji_meta@) =~= if kind == Some(BankKind::KanjiMeta) {
                path_views(before.kanji_meta@).push((i, name@))
            } else {
                path_views(before.kanji_meta@)
            });
        }
        i = i + 1;
    }
    proof {
        assert(names@.take(names@.len() as int) =~= names@);
    }
    r
}

/// Number of banks whose rows are imported and counted for progress: the
/// term, term-meta, kanji and kanji-meta banks (tag banks are read first,
/// on their own).
pub fn num_banks(paths: &BankPaths) -> (r: usize)
    requires
        paths.term@.len() + paths.term_meta@.len() + paths.kanji@.len() + paths.kanji_meta@.len()
            <= usize::MAX,
    ensures
        r == paths.term@.len() + paths.term_meta@.len() + paths.kanji@.len() + paths.kanji_meta@.len(),
{
    paths.term.len() + paths.term_meta.len() + paths.kanji.len() + paths.kanji_meta.len()
}

/// The importer of Yomitan dictionaries.
#[derive(Debug, Clone, Copy)]
pub struct Yomitan;

proof fn lemma_sorted_named(v: Seq<GlossaryTag>)
    requires
        named(v),
    ensures
        named(sorted_by_name_len(v)),
    decreases v.len(),
{
    if v.len() > 0 {
        assert(named(v.drop_last())) by {
            assert forall|k: int| 0 <= k < v.drop_last().len() implies (#[trigger] v.drop_last()[k]).name@.len() > 0 by {
                assert(v.drop_last()[k] == v[k]);
            }
        }
        lemma_sorted_named(v.drop_last());
        let s = sorted_by_name_len(v.drop_last());
        lemma_insert_point(s, v.last());
        let p = insert_point(s, v.last());
        let r = s.insert(p, v.last());
        assert(v.last() == v[v.len() - 1]);
        assert forall|k: int| 0 <= k < r.len() implies (#[trigger] r[k]).name@.len() > 0 by {
            if k < p {
                assert(r[k] == s[k]);
            } else if k > p {
                assert(r[k] == s[k - 1]);
            }
        }
    }
}

/// The tags of all tag banks, in order.
pub open spec fn flat_tags(banks: Seq<Vec<Tag>>) -> Seq<GlossaryTag>
    decreases banks.len(),
{
    if banks.len() == 0 {
        Seq::empty()
    } else {
        flat_tags(banks.drop_last()) + banks.last()@.map_values(
            |t: Tag| GlossaryTag { name: t.name, category: t.category, description: t.notes, order: t.order },
        )
    }
}

/// The tags of the tag banks as glossary tags, sorted by the length of their
/// names, shortest first.
///
/// [`match_tags`] takes the first tag, in this order, whose name begins the
/// definition tags, so with this order a shorter name is preferred over a
/// longer one that it begins (`v` before `v5r`). Longest-first would prefer
/// the longer name; the shortest-first order is what the importer uses.
pub fn all_tags(tag_banks: Vec<Vec<Tag>>) -> (r: Vec<GlossaryTag>)
    ensures
        r@ == sorted_by_name_len(flat_tags(tag_banks@)),
{
    let mut tags: Vec<GlossaryTag> = Vec::new();
    let mut rest = tag_banks;
    let ghost all = rest@;
    let n = rest.len();
    let mut i: usize = 0;
    while i < n
        invariant
            n == all.len(),
            i <= n,
            rest@ == all.skip(i as int),
            tags@ == flat_tags(all.take(i as int)),
        decreases n - i,
    {
        let bank = rest.remove(0);
        proof {
            assert(bank == all[i as int]);
            assert(rest@ =~= all.skip(i as int + 1));
            let t = all.take(i as int + 1);
            assert(t.drop_last() =~= all.take(i as int));
            assert(t.last() == all[i as int]);
        }
        let ghost before = tags@;
        let mut b = bank;
        let ghost bv = b@;
        let m = b.len();
        let mut j: usize = 0;
        while j < m
            invariant
                m == bv.len(),
                j <= m,
                b@ == bv.skip(j as int),
                tags@ == before + bv.take(j as int).map_values(
                    |t: Tag| GlossaryTag { name: t.name, category: t.category, description: t.notes, order: t.order },
                ),
            decreases m - j,
        {
            let raw = b.remove(0);
            proof {
                assert(raw == bv[j as int]);
                assert(b@ =~= bv.skip(j as int + 1));
            }
            tags.push(to_term_tag(raw));
            proof {
                assert(bv.take(j as int + 1) =~= bv.take(j as int).push(bv[j as int]));
                assert(tags@ =~= before + bv.take(j as int + 1).map_values(
                    |t: Tag| GlossaryTag { name: t.name, category: t.category, description: t.notes, order: t.order },
                ));
            }
            j = j + 1;
        }
        proof {
            assert(bv.take(m as int) =~= bv);
        }
        i = i + 1;
    }
    proof {
        assert(all.take(n as int) =~= all);
    }
    sort_by_name_len(tags)
}

/// A parsed bank of a Yomitan archive. Kanji banks are read but not
/// imported, so they carry nothing.
#[derive(Debug)]
pub enum Bank {
    Term(Vec<schema::Term>),
    TermMeta(Vec<TermMetaEntry>),
    Kanji,
    KanjiMeta,
}

/// What one row of a bank gives.
#[derive(Debug)]
pub enum RowImport {
    Term(TermImport),
    Meta(Vec<(Term, MetaRecord)>),
}

/// The row of a bank that gave no term: its bank and its index there.
#[derive(Debug, Clone, Copy, PartialEq, Eq)]
pub struct RowError {
    pub bank: usize,
    pub row: usize,
}

/// The number of rows of a bank that are imported.
pub open spec fn bank_len(b: Bank) -> int {
    match b {
        Bank::Term(v) => v@.len() as int,
        Bank::TermMeta(v) => v@.len() as int,
        _ => 0,
    }
}

/// Whether row `k` of a bank gives no term.
pub open spec fn row_fails(b: Bank, k: int) -> bool {
    match b {
        Bank::Term(v) => term_fails(v@[k]),
        Bank::TermMeta(v) => meta_fails(v@[k]),
        _ => false,
    }
}

/// Whether `r` is what row `k` of a bank gives.
pub open spec fn row_ok(b: Bank, k: int, tags: Seq<GlossaryTag>, mode: Option<FrequencyMode>, r: RowImport) -> bool {
    match b {
        Bank::Term(v) => r matches RowImport::Term(t) && term_import_ok(v@[k], tags, Ok(t)),
        Bank::TermMeta(v) => r matches RowImport::Meta(m) && meta_import_ok(mode, v@[k], Ok(m)),
        _ => false,
    }
}

/// The number of imported rows in the banks before bank `b`.
pub open spec fn rows_before(banks: Seq<Bank>, b: int) -> int
    decreases b,
{
    if b <= 0 {
        0
    } else {
        rows_before(banks, b - 1) + bank_len(banks[b - 1])
    }
}

/// Whether some row of the banks before bank `b`, or of bank `b` before row
/// `k`, gives no term.
pub open spec fn fails_before(banks: Seq<Bank>, b: int, k: int) -> bool {
    exists|c: int, j: int|
        0 <= c <= b && c < banks.len() && 0 <= j < bank_len(banks[c]) && (c < b || j < k) && #[trigger] row_fails(
            banks[c],
            j,
        )
}

proof fn lemma_rows_before_mono(banks: Seq<Bank>, a: int, b: int)
    requires
        0 <= a <= b,
    ensures
        rows_before(banks, a) <= rows_before(banks, b),
    decreases b - a,
{
    if a < b {
        lemma_rows_before_mono(banks, a, b - 1);
        assert(bank_len(banks[b - 1]) >= 0);
    }
}

/// Imports the rows of the banks in order, with the tags `tags` (sorted as
/// [`all_tags`] gives them) and the frequency mode `mode`: term rows as
/// [`term_records`] does, term-meta rows as [`term_meta_records`] does.
/// Stops at the first row that gives no term.
pub fn import_banks(mode: Option<FrequencyMode>, tags: &Vec<GlossaryTag>, banks: Vec<Bank>) -> (r: Result<
    Vec<RowImport>,
    RowError,
>)
    requires
        named(tags@),
    ensures
        r is Err <==> fails_before(banks@, banks@.len() as int, 0),
        r matches Err(e) ==> e.bank < banks@.len() && e.row < bank_len(banks@[e.bank as int]) && row_fails(
            banks@[e.bank as int],
            e.row as int,
        ) && !fails_before(banks@, e.bank as int, e.row as int),
        r matches Ok(v) ==> v@.len() == rows_before(banks@, banks@.len() as int) && forall|b: int, k: int|
            0 <= b < banks@.len() && 0 <= k < bank_len(banks@[b]) ==> row_ok(
                banks@[b],
                k,
                tags@,
                mode,
                #[trigger] v@[rows_before(banks@, b) + k],
            ),
{
    let mut out: Vec<RowImport> = Vec::new();
    let mut rest = banks;
    let ghost all = rest@;
    let n = rest.len();
    let mut i: usize = 0;
    while i < n
        invariant
            n == all.len(),
            all == banks@,
            i <= n,
            named(tags@),
            rest@ == all.skip(i as int),
            !fails_before(all, i as int, 0),
            out@.len() == rows_before(all, i as int),
            forall|b: int, k: int|
                0 <= b < i && 0 <= k < bank_len(all[b]) ==> row_ok(
                    all[b],
                    k,
                    tags@,
                    mode,
                    #[trigger] out@[rows_before(all, b) + k],
                ),
        decreases n - i,
    {
        let bank = rest.remove(0);
        proof {
            assert(bank == all[i as int]);
            assert(rest@ =~= all.skip(i as int + 1));
        }
        let ghost base = out@.len() as int;
        match bank {
            Bank::Term(rows) => {
                let ghost rv = rows@;
                let mut rows = rows;
                let m = rows.len();
                let mut k: usize = 0;
                while k < m
                    invariant
                        n == all.len(),
                        all == banks@,
            all == banks@,
                        i < n,
                        bank_len(all[i as int]) == m,
                        all[i as int] matches Bank::Term(w) && w@ == rv,
                        m == rv.len(),
                        k <= m,
                        named(tags@),
                        rows@ == rv.skip(k as int),
                        !fails_before(all, i as int, k as int),
                        base == rows_before(all, i as int),
                        out@.len() == base + k,
                        forall|b: int, j: int|
                            0 <= b < i && 0 <= j < bank_len(all[b]) ==> row_ok(
                                all[b],
                                j,
                                tags@,
                                mode,
                                #[trigger] out@[rows_before(all, b) + j],
                            ),
                        forall|j: int|
                            0 <= j < k ==> row_ok(all[i as int], j, tags@, mode, #[trigger] out@[base + j]),
                    decreases m - k,
                {
                    let raw = rows.remove(0);
                    proof {
                        assert(raw == rv[k as int]);
                        assert(rows@ =~= rv.skip(k as int + 1));
                    }
                    let ghost rawv = raw;
                    match term_records(raw, tags) {
                        Ok(t) => {
                            let ghost before = out@;
                            let ghost item = RowImport::Term(t);
                            out.push(RowImport::Term(t));
                            proof {
                                assert(out@ == before.push(item));
                                assert(before.len() == base + k);
                                assert(!term_fails(rawv));
                                assert(!row_fails(all[i as int], k as int));
                                assert forall|b: int, j: int|
                                    0 <= b < i && 0 <= j < bank_len(all[b]) implies row_ok(
                                        all[b],
                                        j,
                                        tags@,
                                        mode,
                                        #[trigger] out@[rows_before(all, b) + j],
                                    ) by {
                                    lemma_rows_before_mono(all, b + 1, i as int);
                                    assert(rows_before(all, b + 1) == rows_before(all, b) + bank_len(all[b]));
                                    lemma_rows_before_mono(all, 0, b);
                                    let x = rows_before(all, b) + j;
                                    assert(0 <= x < before.len());
                                    assert(out@[x] == before[x]);
                                }
                                assert forall|j: int| 0 <= j < k + 1 implies row_ok(all[i as int], j, tags@, mode, #[trigger] out@[base + j]) by {
                                    lemma_rows_before_mono(all, 0, i as int);
                                    if j < k {
                                        assert(out@[base + j] == before[base + j]);
                                    }
                                }
                                assert forall|c: int, j: int|
                                    0 <= c <= i && c < all.len() && 0 <= j < bank_len(all[c]) && (c < i || j < k + 1)
                                        implies !#[trigger] row_fails(all[c], j) by {
                                    if c < i || j < k {
                                        assert(!fails_before(all, i as int, k as int));
                                    }
                                }
                            }
                        },
                        Err(_) => {
                            proof {
                                assert(term_fails(rawv));
                                assert(row_fails(all[i as int], k as int));
                                assert(fails_before(all, n as int, 0));
                            }
                            return Err(RowError { bank: i, row: k });
                        },
                    }
                    k = k + 1;
                }
            },
            Bank::TermMeta(rows) => {
                let ghost rv = rows@;
                let mut rows = rows;
                let m = rows.len();
                let mut k: usize = 0;
                while k < m
                    invariant
                        n == all.len(),
                        all == banks@,
            all == banks@,
                        i < n,
                        bank_len(all[i as int]) == m,
                        all[i as int] matches Bank::TermMeta(w) && w@ == rv,
                        m == rv.len(),
                        k <= m,
                        rows@ == rv.skip(k as int),
                        !fails_before(all, i as int, k as int),
                        base == rows_before(all, i as int),
                        out@.len() == base + k,
                        forall|b: int, j: int|
                            0 <= b < i && 0 <= j < bank_len(all[b]) ==> row_ok(
                                all[b],
                                j,
                                tags@,
                                mode,
                                #[trigger] out@[rows_before(all, b) + j],
                            ),
                        forall|j: int|
                            0 <= j < k ==> row_ok(all[i as int], j, tags@, mode, #[trigger] out@[base + j]),
                    decreases m - k,
                {
                    let raw = rows.remove(0);
                    proof {
                        assert(raw == rv[k as int]);
                        assert(rows@ =~= rv.skip(k as int + 1));
                    }
                    let ghost rawv = raw;
                    match term_meta_records(mode, raw) {
                        Ok(v) => {
                            let ghost before = out@;
                            let ghost item = RowImport::Meta(v);
                            out.push(RowImport::Meta(v));
                            proof {
                                assert(out@ == before.push(item));
                                assert(before.len() == base + k);
                                assert(!meta_fails(rawv));
                                assert(!row_fails(all[i as int], k as int));
                                assert forall|b: int, j: int|
                                    0 <= b < i && 0 <= j < bank_len(all[b]) implies row_ok(
                                        all[b],
                                        j,
                                        tags@,
                                        mode,
                                        #[trigger] out@[rows_before(all, b) + j],
                                    ) by {
                                    lemma_rows_before_mono(all, b + 1, i as int);
                                    assert(rows_before(all, b + 1) == rows_before(all, b) + bank_len(all[b]));
                                    lemma_rows_before_mono(all, 0, b);
                                    let x = rows_before(all, b) + j;
                                    assert(0 <= x < before.len());
                                    assert(out@[x] == before[x]);
                                }
                                assert forall|j: int| 0 <= j < k + 1 implies row_ok(all[i as int], j, tags@, mode, #[trigger] out@[base + j]) by {
                                    lemma_rows_before_mono(all, 0, i as int);
                                    if j < k {
                                        assert(out@[base + j] == before[base + j]);
                                    }
                                }
                                assert forall|c: int, j: int|
                                    0 <= c <= i && c < all.len() && 0 <= j < bank_len(all[c]) && (c < i || j < k + 1)
                                        implies !#[trigger] row_fails(all[c], j) by {
                                    if c < i || j < k {
                                        assert(!fails_before(all, i as int, k as int));
                                    }
                                }
                            }
                        },
                        Err(_) => {
                            proof {
                                assert(meta_fails(rawv));
                                assert(row_fails(all[i as int], k as int));
                                assert(fails_before(all, n as int, 0));
                            }
                            return Err(RowError { bank: i, row: k });
                        },
                    }
                    k = k + 1;
                }
            },
            Bank::Kanji => {},
            Bank::KanjiMeta => {},
        }
        proof {
            assert(rows_before(all, i as int + 1) == rows_before(all, i as int) + bank_len(all[i as int]));
            assert forall|c: int, j: int|
                0 <= c <= i + 1 && c < all.len() && 0 <= j < bank_len(all[c]) && (c < i + 1 || j < 0)
                    implies !#[trigger] row_fails(all[c], j) by {
                if c < i {
                    assert(!fails_before(all, i as int, 0));
                }
            }
        }
        i = i + 1;
    }
    proof {
        assert(!fails_before(all, n as int, 0));
    }
    Ok(out)
}

/// Whether progress is reported after row `rows_done` of a bank: every 500
/// rows, counting from one so that the first row does not report.
pub fn row_progress_due(rows_done: usize) -> (r: bool)
    ensures
        r == ((rows_done + 1) % 500 == 0),
{
    rows_done % 500 == 499
}

} // verus!
