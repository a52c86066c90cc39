//! Anki notes: the fields of a note for a term, built from the records a
//! lookup found for it: the sentence with the term in bold, the term as plain
//! ruby text, its glossaries as HTML lists, its pitch positions and its
//! frequencies.

pub mod client;

use foldhash::fast::RandomState;
use indexmap::IndexSet;
use vstd::prelude::*;
use vstd::utf8::{encode_utf8, is_char_boundary, valid_utf8};
use vstd::string::StringSliceAdditionalSpecFns;

use crate::dict::yomitan::Glossary;
use crate::format::yomitan::html::{content_html, render_content};
use crate::html::{escape_html, push_escaped};
use crate::import::yomitan::{FrequencyRecord, FrequencyValue};
use crate::num::{decimal, decimal_i, push_decimal_i64, push_decimal_u64};
use crate::record::{DictionaryId, Record, RecordEntry};
use crate::structured::Content;
use crate::term::{NormString, Term};
use crate::text::push_str;

verus! {

/// A boundary after `i` in `b` is still one in `b[i..]`.
proof fn lemma_boundary_in_suffix(b: Seq<u8>, i: int, j: int)
    requires
        valid_utf8(b),
        is_char_boundary(b, i),
        is_char_boundary(b, j),
        0 <= i <= j <= b.len(),
    ensures
        valid_utf8(b.subrange(i, b.len() as int)),
        is_char_boundary(b.subrange(i, b.len() as int), j - i),
{
    vstd::utf8::valid_utf8_split(b, i);
    let s = b.subrange(i, b.len() as int);
    if j == b.len() {
        vstd::utf8::is_char_boundary_start_end_of_seq(s);
    } else {
        vstd::utf8::is_char_boundary_iff_not_is_continuation_byte(b, j);
        vstd::utf8::is_char_boundary_iff_not_is_continuation_byte(s, j - i);
        assert(s[j - i] == b[j]);
    }
}

/// Whether `start..end` is a byte range of `b` that begins and ends on
/// character boundaries.
pub open spec fn is_char_range(b: Seq<u8>, start: int, end: int) -> bool {
    &&& 0 <= start <= end <= b.len()
    &&& is_char_boundary(b, start)
    &&& is_char_boundary(b, end)
}

/// The bytes of a sentence with `start..end` wrapped in `<b>` and `</b>`.
pub open spec fn cloze_bytes(b: Seq<u8>, start: int, end: int) -> Seq<u8> {
    b.take(start) + encode_utf8("<b>"@) + b.subrange(start, end) + encode_utf8("</b>"@) + b.skip(end)
}

/// The sentence with the bytes `start..end` wrapped in `<b>` and `</b>`, or
/// `None` if that is not a range of whole characters of the sentence.
pub fn sentence_cloze(sentence: &str, start: usize, end: usize) -> (r: Option<String>)
    ensures
        r is Some <==> is_char_range(encode_utf8(sentence@), start as int, end as int),
        r matches Some(s) ==> encode_utf8(s@) == cloze_bytes(
            encode_utf8(sentence@),
            start as int,
            end as int,
        ),
{
    let ghost b = encode_utf8(sentence@);
    proof {
        vstd::utf8::encode_utf8_valid_utf8(sentence@);
    }
    let len = crate::text::byte_len(sentence);
    if !(start <= end && end <= len) {
        return None;
    }
    if !(sentence.is_char_boundary(start) && sentence.is_char_boundary(end)) {
        return None;
    }
    let (prefix, rest) = sentence.split_at(start);
    proof {
        lemma_boundary_in_suffix(b, start as int, end as int);
        assert(rest.spec_bytes() =~= b.subrange(start as int, b.len() as int));
    }
    let (body, suffix) = rest.split_at(end - start);
    let mut out = String::new();
    push_str(&mut out, prefix);
    push_str(&mut out, "<b>");
    push_str(&mut out, body);
    push_str(&mut out, "</b>");
    push_str(&mut out, suffix);
    proof {
        let sb = b.subrange(start as int, b.len() as int);
        assert(body.spec_bytes() =~= b.subrange(start as int, end as int));
        assert(suffix.spec_bytes() =~= b.skip(end as int));
        assert(prefix.spec_bytes() =~= b.take(start as int));
        crate::text::lemma_encode_concat(prefix@, "<b>"@);
        crate::text::lemma_encode_concat(prefix@ + "<b>"@, body@);
        crate::text::lemma_encode_concat(prefix@ + "<b>"@ + body@, "</b>"@);
        crate::text::lemma_encode_concat(prefix@ + "<b>"@ + body@ + "</b>"@, suffix@);
    }
    Some(out)
}

/// The text of an optional term part, or nothing.
pub open spec fn part_text(part: Option<Seq<char>>) -> Seq<char> {
    match part {
        Some(p) => p,
        None => Seq::empty(),
    }
}

/// The text of an optional term part, or an empty string.
pub fn term_part(part: Option<&NormString>) -> (r: String)
    ensures
        r@ == part_text(match part {
            Some(n) => Some(n@),
            None => None,
        }),
{
    match part {
        Some(n) => n.as_str().to_owned(),
        None => String::new(),
    }
}

/// Plain ruby text of (headword part, reading part) pairs: each headword part,
/// then its reading part in brackets when there is one, then a space.
pub open spec fn ruby_parts(ps: Seq<(String, String)>) -> Seq<char>
    decreases ps.len(),
{
    if ps.len() == 0 {
        Seq::empty()
    } else {
        let (h, r) = ps.last();
        ruby_parts(ps.drop_last()) + h@ + (if r@.len() == 0 {
            Seq::empty()
        } else {
            "["@ + r@ + "]"@
        }) + " "@
    }
}

/// Plain ruby text of a term: for a full term, its furigana parts as in
/// [`ruby_parts`]; otherwise its only part.
pub open spec fn ruby_plain(t: Term, parts: Seq<(String, String)>) -> Seq<char> {
    match t {
        Term::Full { .. } => ruby_parts(parts),
        Term::Headword { headword } => headword@,
        Term::Reading { reading } => reading@,
    }
}

/// Plain ruby text of `term`, with `parts` the furigana parts of a full term
/// (pairs of a headword part and the reading part over it).
pub fn term_ruby_plain(term: &Term, parts: &Vec<(String, String)>) -> (r: String)
    ensures
        r@ == ruby_plain(*term, parts@),
{
    match term {
        Term::Full { .. } => {
            let mut result = String::new();
            let mut i: usize = 0;
            while i < parts.len()
                invariant
                    i <= parts@.len(),
                    result@ == ruby_parts(parts@.take(i as int)),
                decreases parts@.len() - i,
            {
                let (ref h, ref r) = parts[i];
                let ghost before = result@;
                push_str(&mut result, h.as_str());
                if !r.as_str().is_empty() {
                    push_str(&mut result, "[");
                    push_str(&mut result, r.as_str());
                    push_str(&mut result, "]");
                }
                push_str(&mut result, " ");
                proof {
                    let t = parts@.take(i as int + 1);
                    assert(t.drop_last() =~= parts@.take(i as int));
                    assert(t.last() == parts@[i as int]);
                    assert(result@ =~= ruby_parts(t));
                }
                i = i + 1;
            }
            proof {
                assert(parts@.take(parts@.len() as int) =~= parts@);
            }
            result
        },
        Term::Headword { headword } => headword.as_str().to_owned(),
        Term::Reading { reading } => reading.as_str().to_owned(),
    }
}

/// Whether a record entry is for `t`.
pub open spec fn is_for(e: RecordEntry, t: Term) -> bool {
    e.term.same_as(t)
}

/// Whether some entry is for `t`.
pub open spec fn has_records(es: Seq<RecordEntry>, t: Term) -> bool {
    exists|i: int| 0 <= i < es.len() && is_for(#[trigger] es[i], t)
}

/// The smallest start of the spans of the entries for `t`.
pub open spec fn span_min(es: Seq<RecordEntry>, t: Term) -> Option<u64>
    decreases es.len(),
{
    if es.len() == 0 {
        None
    } else {
        let rest = span_min(es.drop_last(), t);
        let e = es.last();
        if !is_for(e, t) {
            rest
        } else {
            match rest {
                Some(m) => Some(if e.span_bytes.start < m { e.span_bytes.start } else { m }),
                None => Some(e.span_bytes.start),
            }
        }
    }
}

/// The largest end of the spans of the entries for `t`.
pub open spec fn span_max(es: Seq<RecordEntry>, t: Term) -> Option<u64>
    decreases es.len(),
{
    if es.len() == 0 {
        None
    } else {
        let rest = span_max(es.drop_last(), t);
        let e = es.last();
        if !is_for(e, t) {
            rest
        } else {
            match rest {
                Some(m) => Some(if e.span_bytes.end > m { e.span_bytes.end } else { m }),
                None => Some(e.span_bytes.end),
            }
        }
    }
}

proof fn lemma_span_some(es: Seq<RecordEntry>, t: Term)
    ensures
        span_min(es, t) is Some <==> has_records(es, t),
        span_max(es, t) is Some <==> has_records(es, t),
    decreases es.len(),
{
    if es.len() > 0 {
        lemma_span_some(es.drop_last(), t);
        if has_records(es.drop_last(), t) {
            let i = choose|i: int| 0 <= i < es.drop_last().len() && is_for(#[trigger] es.drop_last()[i], t);
            assert(es[i] == es.drop_last()[i]);
        }
        if has_records(es, t) && !is_for(es.last(), t) {
            let i = choose|i: int| 0 <= i < es.len() && is_for(#[trigger] es[i], t);
            assert(es.drop_last()[i] == es[i]);
        }
        if is_for(es.last(), t) {
            assert(is_for(es[es.len() - 1], t));
        }
    }
}

/// The smallest span start and the largest span end of the entries for
/// `term`, or `None` if there is none.
pub fn term_span(entries: &Vec<RecordEntry>, term: &Term) -> (r: Option<(u64, u64)>)
    ensures
        r is Some <==> has_records(entries@, *term),
        r matches Some((lo, hi)) ==> span_min(entries@, *term) == Some(lo) && span_max(
            entries@,
            *term,
        ) == Some(hi),
{
    let mut lo: Option<u64> = None;
    let mut hi: Option<u64> = None;
    let mut i: usize = 0;
    while i < entries.len()
        invariant
            i <= entries@.len(),
            lo == span_min(entries@.take(i as int), *term),
            hi == span_max(entries@.take(i as int), *term),
        decreases entries@.len() - i,
    {
        let e = &entries[i];
        proof {
            let t = entries@.take(i as int + 1);
            assert(t.drop_last() =~= entries@.take(i as int));
            assert(t.last() == entries@[i as int]);
        }
        if e.term.same(term) {
            let s = e.span_bytes;
            lo = match lo {
                Some(m) => Some(if s.start < m { s.start } else { m }),
                None => Some(s.start),
            };
            hi = match hi {
                Some(m) => Some(if s.end > m { s.end } else { m }),
                None => Some(s.end),
            };
        }
        i = i + 1;
    }
    proof {
        assert(entries@.take(entries@.len() as int) =~= entries@);
        lemma_span_some(entries@, *term);
    }
    match (lo, hi) {
        (Some(a), Some(b)) => Some((a, b)),
        _ => None,
    }
}

/// A byte offset as a `usize`, or `usize::MAX` when it does not fit.
pub open spec fn offset_of(n: u64) -> usize {
    if n <= usize::MAX {
        n as usize
    } else {
        usize::MAX
    }
}

fn to_offset(n: u64) -> (r: usize)
    ensures
        r == offset_of(n),
{
    if n <= usize::MAX as u64 {
        n as usize
    } else {
        usize::MAX
    }
}

/// The list items of a glossary's content, each rendered as HTML.
pub open spec fn content_items(cs: Seq<Content>) -> Seq<char>
    decreases cs.len(),
{
    if cs.len() == 0 {
        Seq::empty()
    } else {
        content_items(cs.drop_last()) + "<li>"@ + content_html(cs.last()) + "</li>"@
    }
}

/// A glossary as an HTML list of its content.
pub open spec fn glossary_html(g: Glossary) -> Seq<char> {
    "<ul>"@ + content_items(g.content@) + "</ul>"@
}

/// The HTML of the glossary records of the entries for `t`, in order.
pub open spec fn glossaries_of(es: Seq<RecordEntry>, t: Term) -> Seq<Seq<char>>
    decreases es.len(),
{
    if es.len() == 0 {
        Seq::empty()
    } else {
        let rest = glossaries_of(es.drop_last(), t);
        let e = es.last();
        match e.record {
            Record::YomitanGlossary(g) => if is_for(e, t) {
                rest.push(glossary_html(g))
            } else {
                rest
            },
            _ => rest,
        }
    }
}

fn glossary_to_html(g: &Glossary) -> (r: String)
    ensures
        r@ == glossary_html(*g),
{
    let mut out = String::new();
    push_str(&mut out, "<ul>");
    let mut i: usize = 0;
    proof {
        assert(out@ =~= "<ul>"@ + content_items(g.content@.take(0)));
    }
    while i < g.content.len()
        invariant
            i <= g.content@.len(),
            out@ == "<ul>"@ + content_items(g.content@.take(i as int)),
        decreases g.content@.len() - i,
    {
        push_str(&mut out, "<li>");
        render_content(&g.content[i], &mut out);
        push_str(&mut out, "</li>");
        proof {
            let t = g.content@.take(i as int + 1);
            assert(t.drop_last() =~= g.content@.take(i as int));
            assert(t.last() == g.content@[i as int]);
            assert(out@ =~= "<ul>"@ + content_items(t));
        }
        i = i + 1;
    }
    push_str(&mut out, "</ul>");
    proof {
        assert(g.content@.take(g.content@.len() as int) =~= g.content@);
    }
    out
}

/// The glossaries of the entries for `term`, each as an HTML list.
pub fn glossaries(entries: &Vec<RecordEntry>, term: &Term) -> (r: Vec<String>)
    ensures
        r@.map_values(|s: String| s@) == glossaries_of(entries@, *term),
{
    let mut out: Vec<String> = Vec::new();
    let mut i: usize = 0;
    while i < entries.len()
        invariant
            i <= entries@.len(),
            out@.map_values(|s: String| s@) == glossaries_of(entries@.take(i as int), *term),
        decreases entries@.len() - i,
    {
        let e = &entries[i];
        proof {
            let t = entries@.take(i as int + 1);
            assert(t.drop_last() =~= entries@.take(i as int));
            assert(t.last() == entries@[i as int]);
        }
        match &e.record {
            Record::YomitanGlossary(g) => {
                if e.term.same(term) {
                    let h = glossary_to_html(g);
                    let ghost prev = out@;
                    out.push(h);
                    proof {
                        assert(out@.map_values(|s: String| s@) =~= prev.map_values(|s: String| s@).push(h@));
                    }
                }
            },
            _ => {},
        }
        i = i + 1;
    }
    proof {
        assert(entries@.take(entries@.len() as int) =~= entries@);
    }
    out
}

/// The list items of already rendered glossaries, each escaped as text.
pub open spec fn glossary_items(gs: Seq<Seq<char>>) -> Seq<char>
    decreases gs.len(),
{
    if gs.len() == 0 {
        Seq::empty()
    } else {
        glossary_items(gs.drop_last()) + "<li>"@ + escape_html(gs.last()) + "</li>"@
    }
}

/// All glossaries as one HTML list; each is inserted as text, so its markup
/// is escaped.
pub fn all_glossaries(glossaries: &Vec<String>) -> (r: String)
    ensures
        r@ == "<ul>"@ + glossary_items(glossaries@.map_values(|s: String| s@)) + "</ul>"@,
{
    let ghost gs = glossaries@.map_values(|s: String| s@);
    let mut out = String::new();
    push_str(&mut out, "<ul>");
    let mut i: usize = 0;
    proof {
        assert(out@ =~= "<ul>"@ + glossary_items(gs.take(0)));
    }
    while i < glossaries.len()
        invariant
            i <= glossaries@.len(),
            gs == glossaries@.map_values(|s: String| s@),
            out@ == "<ul>"@ + glossary_items(gs.take(i as int)),
        decreases glossaries@.len() - i,
    {
        push_str(&mut out, "<li>");
        push_escaped(&mut out, glossaries[i].as_str());
        push_str(&mut out, "</li>");
        proof {
            let t = gs.take(i as int + 1);
            assert(t.drop_last() =~= gs.take(i as int));
            assert(t.last() == glossaries@[i as int]@);
            assert(out@ =~= "<ul>"@ + glossary_items(t));
        }
        i = i + 1;
    }
    push_str(&mut out, "</ul>");
    proof {
        assert(gs.take(gs.len() as int) =~= gs);
    }
    out
}

/// Declares `foldhash::fast::RandomState`, the hasher the position set is built with.
#[verifier::external_type_specification]
#[verifier::external_body]
pub struct ExRandomState(RandomState);

/// Declares `indexmap::IndexSet`, an insertion-ordered set.
#[verifier::external_type_specification]
#[verifier::external_body]
#[verifier::reject_recursive_types(T)]
#[verifier::reject_recursive_types(S)]
pub struct ExIndexSet<T, S>(IndexSet<T, S>);

/// The items of an insertion-ordered set of positions, in insertion order.
pub uninterp spec fn position_set_items(s: IndexSet<u64, RandomState>) -> Seq<u64>;

/// An empty set.
///
/// Trusted wrapper over `IndexSet::default` (with foldhash's `RandomState`),
/// which indexmap documents as returning an empty set.
#[verifier::external_body]
fn new_position_set() -> (r: IndexSet<u64, RandomState>)
    ensures
        position_set_items(r) == Seq::<u64>::empty(),
{
    IndexSet::default()
}

/// Inserts `v` unless it is already in the set.
///
/// Trusted wrapper over `IndexSet::insert`: indexmap documents that if an
/// equal item is already in the set, the set is left as it is and `false` is
/// returned; otherwise the item is added at the end and `true` is returned.
#[verifier::external_body]
fn insert_position(s: &mut IndexSet<u64, RandomState>, v: u64) -> (r: bool)
    ensures
        r == !position_set_items(*old(s)).contains(v),
        position_set_items(*final(s)) == (if r {
            position_set_items(*old(s)).push(v)
        } else {
            position_set_items(*old(s))
        }),
{
    s.insert(v)
}

/// The items of the set, in insertion order.
///
/// Trusted wrapper over `IndexSet::iter`, which indexmap documents as
/// iterating over the items in their order.
#[verifier::external_body]
fn position_set_to_vec(s: &IndexSet<u64, RandomState>) -> (r: Vec<u64>)
    ensures
        r@ == position_set_items(*s),
{
    s.iter().copied().collect()
}

/// The pitch positions of the pitch records of the entries for `t`, in order.
pub open spec fn pitch_positions_of(es: Seq<RecordEntry>, t: Term) -> Seq<u64>
    decreases es.len(),
{
    if es.len() == 0 {
        Seq::empty()
    } else {
        let rest = pitch_positions_of(es.drop_last(), t);
        let e = es.last();
        match e.record {
            Record::YomitanPitch(p) => if is_for(e, t) {
                rest.push(p.position)
            } else {
                rest
            },
            _ => rest,
        }
    }
}

/// Whether entry `e` is a pitch record at `pos` for term `t`.
pub open spec fn pitch_entry_at(e: RecordEntry, t: Term, pos: u64) -> bool {
    e.term.same_as(t) && (e.record matches Record::YomitanPitch(p) && p.position == pos)
}

/// The pitch positions of a term are exactly those of its own pitch
/// records: each comes from a pitch record of an entry whose term is `t`,
/// and every such record's position is among them. Entries for other terms
/// add nothing.
pub proof fn lemma_pitch_positions_own_records(es: Seq<RecordEntry>, t: Term)
    ensures
        forall|k: int|
            0 <= k < pitch_positions_of(es, t).len() ==> exists|i: int|
                0 <= i < es.len() && pitch_entry_at(#[trigger] es[i], t, #[trigger] pitch_positions_of(es, t)[k]),
        forall|i: int, pos: u64|
            0 <= i < es.len() && #[trigger] pitch_entry_at(es[i], t, pos) ==> pitch_positions_of(
                es,
                t,
            ).contains(pos),
    decreases es.len(),
{
    if es.len() > 0 {
        let d = es.drop_last();
        let rest = pitch_positions_of(d, t);
        lemma_pitch_positions_own_records(d, t);
        let ps = pitch_positions_of(es, t);
        assert forall|k: int| 0 <= k < ps.len() implies exists|i: int|
            0 <= i < es.len() && pitch_entry_at(#[trigger] es[i], t, #[trigger] ps[k]) by {
            if k < rest.len() {
                assert(ps[k] == rest[k]);
                let i = choose|i: int| 0 <= i < d.len() && pitch_entry_at(#[trigger] d[i], t, rest[k]);
                assert(es[i] == d[i]);
            } else {
                assert(pitch_entry_at(es[es.len() - 1], t, ps[k]));
            }
        }
        assert forall|i: int, pos: u64|
            0 <= i < es.len() && #[trigger] pitch_entry_at(es[i], t, pos) implies ps.contains(pos) by {
            if i < d.len() {
                assert(es[i] == d[i]);
                assert(rest.contains(pos));
                let k = choose|k: int| 0 <= k < rest.len() && rest[k] == pos;
                assert(ps[k] == rest[k]);
            } else {
                assert(ps[ps.len() - 1] == pos);
            }
        }
    }
}

/// Adding an entry for another term leaves the pitch positions of `t` as
/// they were.
pub proof fn lemma_pitch_positions_other_term(es: Seq<RecordEntry>, e: RecordEntry, t: Term)
    requires
        !e.term.same_as(t),
    ensures
        pitch_positions_of(es.push(e), t) == pitch_positions_of(es, t),
{
    assert(es.push(e).drop_last() =~= es);
}

/// The items of `s` without repeats, each where it first occurs.
pub open spec fn first_occurrences(s: Seq<u64>) -> Seq<u64>
    decreases s.len(),
{
    if s.len() == 0 {
        Seq::empty()
    } else {
        let rest = first_occurrences(s.drop_last());
        if rest.contains(s.last()) {
            rest
        } else {
            rest.push(s.last())
        }
    }
}

/// Removing repeats keeps each value once: no value occurs twice in the
/// result, and the result holds exactly the values of the input.
pub proof fn lemma_first_occurrences(s: Seq<u64>)
    ensures
        forall|a: int, b: int|
            0 <= a < b < first_occurrences(s).len() ==> #[trigger] first_occurrences(s)[a]
                != #[trigger] first_occurrences(s)[b],
        forall|x: u64| #[trigger] first_occurrences(s).contains(x) <==> s.contains(x),
    decreases s.len(),
{
    if s.len() > 0 {
        let d = s.drop_last();
        let rest = first_occurrences(d);
        lemma_first_occurrences(d);
        assert forall|x: u64| #[trigger] first_occurrences(s).contains(x) <==> s.contains(x) by {
            if s.contains(x) && x != s.last() {
                let k = choose|k: int| 0 <= k < s.len() && s[k] == x;
                assert(d[k] == x);
                assert(d.contains(x));
            }
            if d.contains(x) {
                let k = choose|k: int| 0 <= k < d.len() && d[k] == x;
                assert(s[k] == x);
            }
            if x == s.last() {
                assert(s[s.len() - 1] == x);
            }
            if !rest.contains(s.last()) {
                assert(first_occurrences(s) == rest.push(s.last()));
                if first_occurrences(s).contains(x) && x != s.last() {
                    let k = choose|k: int| 0 <= k < first_occurrences(s).len() && first_occurrences(s)[k] == x;
                    assert(rest[k] == x);
                }
                if rest.contains(x) {
                    let k = choose|k: int| 0 <= k < rest.len() && rest[k] == x;
                    assert(first_occurrences(s)[k] == x);
                }
                if x == s.last() {
                    assert(first_occurrences(s)[rest.len() as int] == x);
                }
            }
        }
        if !rest.contains(s.last()) {
            assert(first_occurrences(s) == rest.push(s.last()));
            assert forall|a: int, b: int|
                0 <= a < b < first_occurrences(s).len() implies #[trigger] first_occurrences(s)[a]
                != #[trigger] first_occurrences(s)[b] by {
                if b == rest.len() {
                    assert(first_occurrences(s)[a] == rest[a]);
                    if rest[a] == s.last() {
                        assert(rest.contains(s.last()));
                    }
                } else {
                    assert(first_occurrences(s)[a] == rest[a]);
                    assert(first_occurrences(s)[b] == rest[b]);
                }
            }
        }
    }
}

/// Each position in brackets, one after the other.
pub open spec fn bracketed(ps: Seq<u64>) -> Seq<char>
    decreases ps.len(),
{
    if ps.len() == 0 {
        Seq::empty()
    } else {
        bracketed(ps.drop_last()) + "["@ + decimal(ps.last() as nat) + "]"@
    }
}

/// The distinct pitch positions of the entries for `term`, in the order they
/// first occur, each in brackets: `[0][2]`.
pub fn pitch_positions(entries: &Vec<RecordEntry>, term: &Term) -> (r: String)
    ensures
        r@ == bracketed(first_occurrences(pitch_positions_of(entries@, *term))),
{
    let mut set = new_position_set();
    let mut i: usize = 0;
    while i < entries.len()
        invariant
            i <= entries@.len(),
            position_set_items(set) == first_occurrences(pitch_positions_of(entries@.take(i as int), *term)),
        decreases entries@.len() - i,
    {
        let e = &entries[i];
        proof {
            let t = entries@.take(i as int + 1);
            assert(t.drop_last() =~= entries@.take(i as int));
            assert(t.last() == entries@[i as int]);
        }
        match &e.record {
            Record::YomitanPitch(p) => {
                if e.term.same(term) {
                    let ghost ps = pitch_positions_of(entries@.take(i as int), *term);
                    proof {
                        assert(pitch_positions_of(entries@.take(i as int + 1), *term) == ps.push(p.position));
                        assert(ps.push(p.position).drop_last() =~= ps);
                        assert(ps.push(p.position).last() == p.position);
                    }
                    insert_position(&mut set, p.position);
                }
            },
            _ => {},
        }
        i = i + 1;
    }
    proof {
        assert(entries@.take(entries@.len() as int) =~= entries@);
    }
    let items = position_set_to_vec(&set);
    let mut out = String::new();
    let mut j: usize = 0;
    while j < items.len()
        invariant
            j <= items@.len(),
            out@ == bracketed(items@.take(j as int)),
        decreases items@.len() - j,
    {
        push_str(&mut out, "[");
        push_decimal_u64(&mut out, items[j]);
        push_str(&mut out, "]");
        proof {
            let t = items@.take(j as int + 1);
            assert(t.drop_last() =~= items@.take(j as int));
            assert(out@ =~= bracketed(t));
        }
        j = j + 1;
    }
    proof {
        assert(items@.take(items@.len() as int) =~= items@);
    }
    out
}

/// The name a dictionary is listed under: the first name given for its ID,
/// or `?`.
pub open spec fn dict_name_of(names: Seq<(DictionaryId, String)>, id: DictionaryId) -> Seq<char>
    decreases names.len(),
{
    if names.len() == 0 {
        "?"@
    } else if names[0].0 == id {
        names[0].1@
    } else {
        dict_name_of(names.drop_first(), id)
    }
}

fn dict_name(names: &Vec<(DictionaryId, String)>, id: DictionaryId) -> (r: String)
    ensures
        r@ == dict_name_of(names@, id),
{
    let mut i: usize = 0;
    proof {
        assert(names@.skip(0) =~= names@);
    }
    while i < names.len()
        invariant
            i <= names@.len(),
            dict_name_of(names@, id) == dict_name_of(names@.skip(i as int), id),
        decreases names@.len() - i,
    {
        proof {
            let s = names@.skip(i as int);
            assert(s[0] == names@[i as int]);
            assert(s.drop_first() =~= names@.skip(i as int + 1));
        }
        if names[i].0.0 == id.0 {
            return names[i].1.clone();
        }
        i = i + 1;
    }
    proof {
        assert(names@.skip(i as int).len() == 0);
    }
    "?".to_owned()
}

/// What a frequency is shown as: its display text if it has one, else its
/// rank; `None` for an occurrence count without display text.
pub open spec fn frequency_text(f: FrequencyRecord) -> Option<Seq<char>> {
    match f.display {
        Some(d) => Some(d@),
        None => match f.value {
            Some(FrequencyValue::Rank(rank)) => Some(decimal_i(rank as int)),
            _ => None,
        },
    }
}

fn frequency_string(f: &FrequencyRecord) -> (r: Option<String>)
    ensures
        match r {
            Some(s) => frequency_text(*f) == Some(s@),
            None => frequency_text(*f) is None,
        },
{
    match &f.display {
        Some(d) => Some(d.clone()),
        None => match f.value {
            Some(FrequencyValue::Rank(rank)) => {
                let mut s = String::new();
                push_decimal_i64(&mut s, rank);
                proof {
                    assert(s@ =~= decimal_i(rank as int));
                }
                Some(s)
            },
            _ => None,
        },
    }
}

/// One HTML list item per frequency of the entries for `t` that has a text:
/// the dictionary's name, a colon, and the frequency, both escaped.
pub open spec fn frequency_items(
    es: Seq<RecordEntry>,
    t: Term,
    names: Seq<(DictionaryId, String)>,
) -> Seq<char>
    decreases es.len(),
{
    if es.len() == 0 {
        Seq::empty()
    } else {
        let rest = frequency_items(es.drop_last(), t, names);
        let e = es.last();
        match e.record {
            Record::YomitanFrequency(f) => if is_for(e, t) && frequency_text(f) is Some {
                rest + "<li>"@ + escape_html(dict_name_of(names, e.source)) + ": "@ + escape_html(
                    frequency_text(f)->0,
                ) + "</li>"@
            } else {
                rest
            },
            _ => rest,
        }
    }
}

/// The frequencies of the entries for `term` as HTML list items, with the
/// names of their dictionaries.
pub fn frequency_list(
    entries: &Vec<RecordEntry>,
    term: &Term,
    names: &Vec<(DictionaryId, String)>,
) -> (r: String)
    ensures
        r@ == frequency_items(entries@, *term, names@),
{
    let mut out = String::new();
    let mut i: usize = 0;
    while i < entries.len()
        invariant
            i <= entries@.len(),
            out@ == frequency_items(entries@.take(i as int), *term, names@),
        decreases entries@.len() - i,
    {
        let e = &entries[i];
        proof {
            let t = entries@.take(i as int + 1);
            assert(t.drop_last() =~= entries@.take(i as int));
            assert(t.last() == entries@[i as int]);
        }
        match &e.record {
            Record::YomitanFrequency(f) => {
                if e.term.same(term) {
                    match frequency_string(f) {
                        Some(text) => {
                            let ghost prev = out@;
                            let name = dict_name(names, e.source);
                            push_str(&mut out, "<li>");
                            push_escaped(&mut out, name.as_str());
                            push_str(&mut out, ": ");
                            push_escaped(&mut out, text.as_str());
                            push_str(&mut out, "</li>");
                            proof {
                                assert(out@ =~= prev + "<li>"@ + escape_html(dict_name_of(names@, e.source))
                                    + ": "@ + escape_html(frequency_text(*f)->0) + "</li>"@);
                            }
                        },
                        None => {},
                    }
                }
            },
            _ => {},
        }
        i = i + 1;
    }
    proof {
        assert(entries@.take(entries@.len() as int) =~= entries@);
    }
    out
}

/// The frequency ranks of the entries for `t`, in order.
pub open spec fn frequency_ranks_of(es: Seq<RecordEntry>, t: Term) -> Seq<i64>
    decreases es.len(),
{
    if es.len() == 0 {
        Seq::empty()
    } else {
        let rest = frequency_ranks_of(es.drop_last(), t);
        let e = es.last();
        match e.record {
            Record::YomitanFrequency(f) => match f.value {
                Some(FrequencyValue::Rank(rank)) => if is_for(e, t) {
                    rest.push(rank)
                } else {
                    rest
                },
                _ => rest,
            },
            _ => rest,
        }
    }
}

/// The frequency ranks of the entries for `term`, in order; occurrence
/// counts are left out.
pub fn frequency_ranks(entries: &Vec<RecordEntry>, term: &Term) -> (r: Vec<i64>)
    ensures
        r@ == frequency_ranks_of(entries@, *term),
{
    let mut out: Vec<i64> = Vec::new();
    let mut i: usize = 0;
    while i < entries.len()
        invariant
            i <= entries@.len(),
            out@ == frequency_ranks_of(entries@.take(i as int), *term),
        decreases entries@.len() - i,
    {
        let e = &entries[i];
        proof {
            let t = entries@.take(i as int + 1);
            assert(t.drop_last() =~= entries@.take(i as int));
            assert(t.last() == entries@[i as int]);
        }
        match &e.record {
            Record::YomitanFrequency(f) => match f.value {
                Some(FrequencyValue::Rank(rank)) => {
                    if e.term.same(term) {
                        out.push(rank);
                    }
                },
                _ => {},
            },
            _ => {},
        }
        i = i + 1;
    }
    proof {
        assert(entries@.take(entries@.len() as int) =~= entries@);
    }
    out
}

/// The fields of an Anki note, by name, in a fixed order.
#[derive(Debug)]
pub struct TermNote {
    pub fields: Vec<(String, String)>,
}

/// A note cannot be built: no record is for the term.
#[derive(Debug, Clone, Copy, PartialEq, Eq)]
pub struct NoRecords;

/// The name and the value of field `i` of a note.
pub open spec fn field(note: TermNote, i: int) -> (Seq<char>, Seq<char>) {
    (note.fields@[i].0@, note.fields@[i].1@)
}

/// The byte range of the sentence that the records for `t` cover.
pub open spec fn cloze_range(es: Seq<RecordEntry>, t: Term) -> (int, int) {
    (offset_of(span_min(es, t)->0) as int, offset_of(span_max(es, t)->0) as int)
}

fn new_field(name: &str, value: String) -> (r: (String, String))
    ensures
        r.0@ == name@,
        r.1@ == value@,
{
    (name.to_owned(), value)
}

/// Builds the note for `term` from the records a lookup of `sentence` found.
///
/// Only the entries for `term` are used; if there is none, this fails with
/// [`NoRecords`]. `names` gives the names of dictionaries by ID, `furigana`
/// the furigana parts of the term when it is a full term, and `freq_sort` the
/// text of the sort key computed from its frequency ranks.
///
/// The fields are, in order: `Expression` (the headword, or nothing),
/// `ExpressionReading` (the reading, or nothing), `ExpressionFurigana` (plain
/// ruby text), `Sentence` (the sentence with the bytes that the records
/// cover in bold, or nothing if they do not fall on character boundaries),
/// `MainDefinition` (the first glossary, or nothing), `Glossary` (all
/// glossaries as one list), `IsWordAndSentenceCard` and `IsClickCard`
/// (empty), `IsSentenceCard` (`x`), `PitchPosition` (the distinct pitch
/// positions in brackets), `Frequency` (the frequencies as list items) and
/// `FreqSort`.
pub fn build_term_note(
    sentence: &str,
    entries: &Vec<RecordEntry>,
    term: &Term,
    names: &Vec<(DictionaryId, String)>,
    furigana: &Vec<(String, String)>,
    freq_sort: String,
) -> (r: Result<TermNote, NoRecords>)
    ensures
        match r {
            Err(NoRecords) => !has_records(entries@, *term),
            Ok(note) => {
                let gs = glossaries_of(entries@, *term);
                let (lo, hi) = cloze_range(entries@, *term);
                let b = encode_utf8(sentence@);
                &&& has_records(entries@, *term)
                &&& note.fields@.len() == 12
                &&& field(note, 0) == ("Expression"@, part_text(term.headword_of()))
                &&& field(note, 1) == ("ExpressionReading"@, part_text(term.reading_of()))
                &&& field(note, 2) == ("ExpressionFurigana"@, ruby_plain(*term, furigana@))
                &&& field(note, 3).0 == "Sentence"@
                &&& (if is_char_range(b, lo, hi) {
                    encode_utf8(field(note, 3).1) == cloze_bytes(b, lo, hi)
                } else {
                    field(note, 3).1 == Seq::<char>::empty()
                })
                &&& field(note, 4) == ("MainDefinition"@, if gs.len() > 0 {
                    gs[0]
                } else {
                    Seq::empty()
                })
                &&& field(note, 5) == ("Glossary"@, "<ul>"@ + glossary_items(gs) + "</ul>"@)
                &&& field(note, 6) == ("IsWordAndSentenceCard"@, Seq::<char>::empty())
                &&& field(note, 7) == ("IsClickCard"@, Seq::<char>::empty())
                &&& field(note, 8) == ("IsSentenceCard"@, "x"@)
                &&& field(note, 9) == ("PitchPosition"@, bracketed(
                    first_occurrences(pitch_positions_of(entries@, *term)),
                ))
                &&& field(note, 10) == ("Frequency"@, frequency_items(entries@, *term, names@))
                &&& field(note, 11) == ("FreqSort"@, freq_sort@)
            },
        },
{
    let span = term_span(entries, term);
    let (span_lo, span_hi) = match span {
        Some(p) => p,
        None => return Err(NoRecords),
    };
    let lo = to_offset(span_lo);
    let hi = to_offset(span_hi);
    let gs = glossaries(entries, term);
    let ghost gv = gs@.map_values(|s: String| s@);
    let main = if gs.len() > 0 {
        gs[0].clone()
    } else {
        String::new()
    };
    let cloze = match sentence_cloze(sentence, lo, hi) {
        Some(c) => c,
        None => String::new(),
    };
    let mut fields: Vec<(String, String)> = Vec::new();
    fields.push(new_field("Expression", term_part(term.headword())));
    fields.push(new_field("ExpressionReading", term_part(term.reading())));
    fields.push(new_field("ExpressionFurigana", term_ruby_plain(term, furigana)));
    fields.push(new_field("Sentence", cloze));
    fields.push(new_field("MainDefinition", main));
    fields.push(new_field("Glossary", all_glossaries(&gs)));
    fields.push(new_field("IsWordAndSentenceCard", String::new()));
    fields.push(new_field("IsClickCard", String::new()));
    fields.push(new_field("IsSentenceCard", "x".to_owned()));
    fields.push(new_field("PitchPosition", pitch_positions(entries, term)));
    fields.push(new_field("Frequency", frequency_list(entries, term, names)));
    fields.push(new_field("FreqSort", freq_sort));
    let note = TermNote { fields };
    proof {
        if gs@.len() > 0 {
            assert(gv[0] == gs@[0]@);
        }
        assert(field(note, 6).1 =~= Seq::<char>::empty());
        assert(field(note, 7).1 =~= Seq::<char>::empty());
    }
    Ok(note)
}

} // verus!
