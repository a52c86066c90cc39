//! Deinflection: turning a word in a sentence into the lemmas it may be an
//! inflected form of. Results of all deinflectors are merged, keeping the
//! first result for each lemma.

pub mod latin;

use vstd::prelude::*;

use crate::text::{byte_len, bytes_len};
use vstd::utf8::{encode_utf8, is_char_boundary};

pub use latin::Latin;

verus! {

/// A half-open byte range `start..end` of a text.
#[derive(Debug, Clone, Copy, PartialEq, Eq, Hash, Structural)]
pub struct Span {
    pub start: usize,
    pub end: usize,
}

/// A lemma, and the byte range of the input text that it was derived from.
#[derive(Debug)]
pub struct Deinflection {
    pub lemma: String,
    pub span: Span,
}

impl Clone for Deinflection {
    fn clone(&self) -> (r: Self)
        ensures
            r == *self,
    {
        Deinflection { lemma: self.lemma.clone(), span: self.span }
    }
}

impl PartialEq for Deinflection {
    /// Two deinflections are equal when their lemmas are.
    fn eq(&self, other: &Self) -> (r: bool) {
        self.lemma == other.lemma
    }
}

impl vstd::std_specs::cmp::PartialEqSpecImpl for Deinflection {
    open spec fn obeys_eq_spec() -> bool {
        true
    }

    open spec fn eq_spec(&self, other: &Self) -> bool {
        self.lemma@ == other.lemma@
    }
}

impl Deinflection {
    /// A deinflection whose span covers the whole lemma, from byte 0.
    pub fn new(lemma: String) -> (r: Deinflection)
        requires
            bytes_len(lemma@) <= usize::MAX,
        ensures
            r.lemma@ == lemma@,
            r.span.start == 0,
            r.span.end == bytes_len(lemma@),
    {
        let n = byte_len(lemma.as_str());
        Deinflection { span: Span { start: 0, end: n }, lemma }
    }

    /// A deinflection whose span covers the lemma's length from `start`.
    pub fn with_start(start: usize, lemma: String) -> (r: Deinflection)
        requires
            start + bytes_len(lemma@) <= usize::MAX,
        ensures
            r.lemma@ == lemma@,
            r.span.start == start,
            r.span.end == start + bytes_len(lemma@),
    {
        let n = byte_len(lemma.as_str());
        Deinflection { span: Span { start, end: start + n }, lemma }
    }
}

/// Something that finds the lemmas of the word at `cursor` in `text`.
pub trait Deinflector {
    /// Whether `r` is what this deinflector proposes for the word at
    /// `cursor` of `text`.
    spec fn proposes(&self, text: Seq<char>, cursor: int, r: Seq<Deinflection>) -> bool;

    fn deinflect(&self, text: &str, cursor: usize) -> (r: Vec<Deinflection>)
        ensures
            self.proposes(text@, cursor as int, r@),
    ;
}

/// Whether `sp` is a byte range of `text` that starts and ends on character
/// boundaries, so that it slices `text` into a string.
pub open spec fn span_in(text: Seq<char>, sp: Span) -> bool {
    &&& sp.start <= sp.end <= bytes_len(text)
    &&& is_char_boundary(encode_utf8(text), sp.start as int)
    &&& is_char_boundary(encode_utf8(text), sp.end as int)
}

/// The deinflector that proposes the whole text as its own lemma.
#[derive(Debug)]
pub struct Identity;

impl Identity {
    /// The whole text, spanning all of it.
    pub fn deinflect_text(&self, text: &str) -> (r: Vec<Deinflection>)
        ensures
            r@.len() == 1,
            r@[0].lemma@ == text@,
            r@[0].span.start == 0,
            r@[0].span.end == bytes_len(text@),
    {
        let n = byte_len(text);
        let lemma = text.to_owned();
        vec![Deinflection { lemma, span: Span { start: 0, end: n } }]
    }
}

/// Whether some deinflection of `s` has lemma `l`.
pub open spec fn has_lemma(s: Seq<Deinflection>, l: Seq<char>) -> bool {
    exists|k: int| 0 <= k < s.len() && (#[trigger] s[k]).lemma@ == l
}

/// The first deinflection for each lemma, in order of first appearance.
pub open spec fn first_per_lemma(s: Seq<Deinflection>) -> Seq<Deinflection>
    decreases s.len(),
{
    if s.len() == 0 {
        Seq::empty()
    } else {
        let d = first_per_lemma(s.drop_last());
        if has_lemma(d, s.last().lemma@) {
            d
        } else {
            d.push(s.last())
        }
    }
}

/// Whether `c` is what the deinflectors propose for the word at `cursor` of
/// `text`: the whole text, then what [`Latin`] proposes.
pub open spec fn candidates(text: Seq<char>, cursor: int, c: Seq<Deinflection>) -> bool {
    &&& c.len() >= 1
    &&& c[0].lemma@ == text
    &&& c[0].span.start == 0
    &&& c[0].span.end == bytes_len(text)
    &&& latin::latin_result(text, cursor, c.skip(1))
}

/// Keeps the first deinflection of each lemma, in order.
pub fn dedup_by_lemma(items: Vec<Deinflection>) -> (r: Vec<Deinflection>)
    ensures
        r@ == first_per_lemma(items@),
{
    let mut out: Vec<Deinflection> = Vec::new();
    let mut i: usize = 0;
    let n = items.len();
    while i < n
        invariant
            n == items@.len(),
            i <= n,
            out@ == first_per_lemma(items@.take(i as int)),
        decreases n - i,
    {
        let d = &items[i];
        let mut j: usize = 0;
        let mut found = false;
        while j < out.len()
            invariant
                j <= out@.len(),
                found <==> exists|k: int| 0 <= k < j && (#[trigger] out@[k]).lemma@ == d.lemma@,
            decreases out@.len() - j,
        {
            if out[j].lemma == d.lemma {
                found = true;
            }
            j = j + 1;
        }
        proof {
            let t = items@.take(i as int + 1);
            assert(t.drop_last() =~= items@.take(i as int));
            assert(t.last() == items@[i as int]);
        }
        if !found {
            out.push(d.clone());
        }
        i = i + 1;
    }
    proof {
        assert(items@.take(n as int) =~= items@);
    }
    out
}

/// The deinflectors of the engine, in the order their results are merged.
#[derive(Debug)]
pub struct Deinflectors {
    pub identity: Identity,
    pub latin: Latin,
}

impl Deinflectors {
    /// The deinflectors: the identity one and the Latin one.
    pub fn new() -> (r: Deinflectors) {
        Deinflectors { identity: Identity, latin: Latin }
    }

    /// All lemmas proposed for the word at `cursor` of `text`, keeping the
    /// first proposal of each lemma.
    pub fn deinflect(&self, text: &str, cursor: usize) -> (r: Vec<Deinflection>)
        ensures
            exists|c: Seq<Deinflection>| candidates(text@, cursor as int, c) && r@ == first_per_lemma(c),
            forall|k: int| 0 <= k < r@.len() ==> span_in(text@, #[trigger] r@[k].span),
    {
        let mut all = self.identity.deinflect_text(text);
        let mut latin = self.latin.deinflect_at(text, cursor);
        let ghost l = latin@;
        let ghost first = all@;
        all.append(&mut latin);
        proof {
            assert(all@.skip(1) =~= l);
            assert(all@[0] == first[0]);
            vstd::utf8::encode_utf8_valid_utf8(text@);
            vstd::utf8::is_char_boundary_start_end_of_seq(encode_utf8(text@));
            assert forall|m: int| 0 <= m < all@.len() implies span_in(text@, #[trigger] all@[m].span) by {
                if m > 0 {
                    assert(all@[m] == l[m - 1]);
                }
            }
        }
        let ghost a = all@;
        let r = dedup_by_lemma(all);
        proof {
            lemma_first_per_lemma_covers(a);
            assert forall|k: int| 0 <= k < r@.len() implies span_in(text@, #[trigger] r@[k].span) by {
                let m = choose|m: int| 0 <= m < a.len() && a[m] == #[trigger] first_per_lemma(a)[k];
                assert(span_in(text@, a[m].span));
            }
        }
        r
    }
}

/// No two merged deinflections share a lemma.
pub proof fn lemma_first_per_lemma_distinct(s: Seq<Deinflection>, i: int, j: int)
    requires
        0 <= i < j < first_per_lemma(s).len(),
    ensures
        first_per_lemma(s)[i].lemma@ != first_per_lemma(s)[j].lemma@,
    decreases s.len(),
{
    let d = first_per_lemma(s.drop_last());
    if !has_lemma(d, s.last().lemma@) && j == d.len() {
        assert(first_per_lemma(s)[i] == d[i]);
    } else {
        lemma_first_per_lemma_distinct(s.drop_last(), i, j);
    }
}

/// Every proposed lemma is kept, and everything kept was proposed.
pub proof fn lemma_first_per_lemma_covers(s: Seq<Deinflection>)
    ensures
        forall|k: int| 0 <= k < s.len() ==> has_lemma(first_per_lemma(s), #[trigger] s[k].lemma@),
        forall|k: int|
            0 <= k < first_per_lemma(s).len() ==> exists|m: int|
                0 <= m < s.len() && s[m] == #[trigger] first_per_lemma(s)[k],
    decreases s.len(),
{
    if s.len() > 0 {
        let p = s.drop_last();
        lemma_first_per_lemma_covers(p);
        let d = first_per_lemma(p);
        assert forall|k: int| 0 <= k < s.len() implies has_lemma(first_per_lemma(s), #[trigger] s[k].lemma@) by {
            if k < p.len() {
                assert(s[k] == p[k]);
                let w = choose|w: int| 0 <= w < d.len() && (#[trigger] d[w]).lemma@ == p[k].lemma@;
                assert(first_per_lemma(s)[w] == d[w]);
            } else if !has_lemma(d, s.last().lemma@) {
                assert(first_per_lemma(s)[d.len() as int] == s.last());
            }
        }
        assert forall|k: int| 0 <= k < first_per_lemma(s).len() implies exists|m: int|
            0 <= m < s.len() && s[m] == #[trigger] first_per_lemma(s)[k] by {
            if k < d.len() {
                let m = choose|m: int| 0 <= m < p.len() && p[m] == #[trigger] d[k];
                assert(s[m] == p[m]);
                assert(first_per_lemma(s)[k] == d[k]);
            } else {
                assert(first_per_lemma(s)[k] == s[s.len() - 1]);
            }
        }
    }
}

} // verus!
