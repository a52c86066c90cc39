//! Deinflection of Latin-script words: the word at the cursor as written,
//! lowercased and uppercased.

use unicode_segmentation::UnicodeSegmentation;
use vstd::prelude::*;

use super::{Deinflection, Deinflector, Span};
use crate::text::{byte_len, bytes_len};
use vstd::utf8::{encode_utf8, is_char_boundary};

verus! {

/// The words of a string with their byte offsets, as
/// `unicode_segmentation`'s `unicode_word_indices` splits them.
pub uninterp spec fn word_indices_of(s: Seq<char>) -> Seq<(usize, Seq<char>)>;

/// What `str::to_lowercase` makes of a string.
pub uninterp spec fn lowercase_of(s: Seq<char>) -> Seq<char>;

/// What `str::to_uppercase` makes of a string.
pub uninterp spec fn uppercase_of(s: Seq<char>) -> Seq<char>;

/// The words of `s` and their byte offsets.
///
/// Trusted wrapper over `UnicodeSegmentation::unicode_word_indices`: the
/// words (UAX#29 word-boundary segments that contain an alphanumeric
/// character) are named [`word_indices_of`]. Stated besides is that each
/// word is the slice of `s` at its byte offset, as the crate yields it
/// (`&s[offset..offset + word.len()]`): it lies within `s`, starts and ends
/// on character boundaries of `s`, and has the bytes of `s` there.
#[verifier::external_body]
fn word_indices(s: &str) -> (r: Vec<(usize, String)>)
    ensures
        r@.map_values(|w: (usize, String)| (w.0, w.1@)) == word_indices_of(s@),
        forall|i: int|
            0 <= i < r@.len() ==> #[trigger] r@[i].0 + bytes_len(r@[i].1@) <= bytes_len(s@),
        forall|i: int|
            0 <= i < r@.len() ==> is_char_boundary(encode_utf8(s@), #[trigger] r@[i].0 as int)
                && is_char_boundary(encode_utf8(s@), r@[i].0 + bytes_len(r@[i].1@))
                && encode_utf8(s@).subrange(r@[i].0 as int, r@[i].0 + bytes_len(r@[i].1@))
                == encode_utf8(r@[i].1@),
{
    s.unicode_word_indices().map(|(i, w)| (i, w.to_owned())).collect()
}

/// Trusted wrapper over `str::to_lowercase`; its result is named
/// [`lowercase_of`] (std defines it by Unicode case tables).
#[verifier::external_body]
fn to_lowercase(s: &str) -> (r: String)
    ensures
        r@ == lowercase_of(s@),
{
    s.to_lowercase()
}

/// Trusted wrapper over `str::to_uppercase`; its result is named
/// [`uppercase_of`] (std defines it by Unicode case tables).
#[verifier::external_body]
fn to_uppercase(s: &str) -> (r: String)
    ensures
        r@ == uppercase_of(s@),
{
    s.to_uppercase()
}

/// Index of the first word that ends at or after `cursor`, or the number of
/// words if there is none.
pub open spec fn word_at(ws: Seq<(usize, Seq<char>)>, cursor: int) -> int
    decreases ws.len(),
{
    if ws.len() == 0 {
        0
    } else if ws[0].0 + bytes_len(ws[0].1) >= cursor {
        0
    } else {
        1 + word_at(ws.drop_first(), cursor)
    }
}

/// Whether `d` is the deinflection to lemma `lemma` of a word at `start` of
/// `len` bytes.
pub open spec fn is_deinflection(d: Deinflection, lemma: Seq<char>, start: int, len: int) -> bool {
    d.lemma@ == lemma && d.span.start == start && d.span.end == start + len
}

/// What the Latin deinflector proposes for the word at `cursor` of
/// `sentence`: nothing if no word ends at or after the cursor; otherwise that
/// word as written, lowercased, and uppercased, each spanning the word.
pub open spec fn latin_result(sentence: Seq<char>, cursor: int, r: Seq<Deinflection>) -> bool {
    let ws = word_indices_of(sentence);
    let k = word_at(ws, cursor);
    if k >= ws.len() {
        r.len() == 0
    } else {
        let (start, word) = ws[k];
        let len = bytes_len(word);
        &&& r.len() == 3
        &&& is_deinflection(r[0], word, start as int, len)
        &&& is_deinflection(r[1], lowercase_of(word), start as int, len)
        &&& is_deinflection(r[2], uppercase_of(word), start as int, len)
    }
}

/// The words of a list with their byte offsets, as text.
pub open spec fn word_views(words: Seq<(usize, String)>) -> Seq<(usize, Seq<char>)> {
    words.map_values(|w: (usize, String)| (w.0, w.1@))
}

/// The index of the first word of `words` that ends at or after `cursor`,
/// or the number of words if none does (see [`word_at`]).
pub fn word_at_cursor(words: &Vec<(usize, String)>, cursor: usize) -> (r: usize)
    requires
        forall|j: int| 0 <= j < words@.len() ==> #[trigger] words@[j].0 + bytes_len(words@[j].1@) <= usize::MAX,
    ensures
        r == word_at(word_views(words@), cursor as int),
{
    let ghost ws = word_views(words@);
    let mut i: usize = 0;
    proof {
        assert(ws.skip(0) =~= ws);
    }
    while i < words.len()
        invariant
            ws == word_views(words@),
            forall|j: int| 0 <= j < words@.len() ==> #[trigger] words@[j].0 + bytes_len(words@[j].1@) <= usize::MAX,
            i <= words@.len(),
            word_at(ws, cursor as int) == i + word_at(ws.skip(i as int), cursor as int),
        decreases words@.len() - i,
    {
        let (start, ref word) = words[i];
        assert(words@[i as int].0 + bytes_len(words@[i as int].1@) <= usize::MAX);
        let ghost rest = ws.skip(i as int);
        assert(rest[0] == ws[i as int]);
        let end = start + byte_len(word.as_str());
        if end >= cursor {
            return i;
        }
        proof {
            assert(rest.drop_first() =~= ws.skip(i + 1));
        }
        i = i + 1;
    }
    proof {
        assert(ws.skip(i as int).len() == 0);
    }
    i
}

/// Deinflector for Latin-script text.
#[derive(Debug)]
pub struct Latin;

impl Latin {
    /// The word at `cursor` as written, lowercased and uppercased.
    pub fn deinflect_at(&self, sentence: &str, cursor: usize) -> (r: Vec<Deinflection>)
        ensures
            latin_result(sentence@, cursor as int, r@),
            forall|k: int| 0 <= k < r@.len() ==> super::span_in(sentence@, #[trigger] r@[k].span),
    {
        let total = byte_len(sentence);
        let words = word_indices(sentence);
        let ghost ws = word_indices_of(sentence@);
        proof {
            assert(ws =~= word_views(words@));
            assert forall|j: int| 0 <= j < words@.len() implies #[trigger] words@[j].0 + bytes_len(
                words@[j].1@,
            ) <= usize::MAX by {
                assert(words@[j].0 + bytes_len(words@[j].1@) <= bytes_len(sentence@));
            }
        }
        let i = word_at_cursor(&words, cursor);
        if i >= words.len() {
            return Vec::new();
        }
        let (start, ref word) = words[i];
        assert(words@[i as int].0 + bytes_len(words@[i as int].1@) <= bytes_len(sentence@));
        proof {
            assert(ws[i as int] == (words@[i as int].0, words@[i as int].1@));
        }
        let end = start + byte_len(word.as_str());
        proof {
            assert(is_char_boundary(encode_utf8(sentence@), words@[i as int].0 as int));
        }
        let lower = to_lowercase(word.as_str());
        let upper = to_uppercase(word.as_str());
        let as_written = word.clone();
        vec![
            Deinflection { lemma: as_written, span: Span { start, end } },
            Deinflection { lemma: lower, span: Span { start, end } },
            Deinflection { lemma: upper, span: Span { start, end } },
        ]
    }
}

impl Deinflector for Latin {
    /// The word at the cursor as written, lowercased and uppercased (see
    /// [`latin_result`]).
    open spec fn proposes(&self, text: Seq<char>, cursor: int, r: Seq<Deinflection>) -> bool {
        latin_result(text, cursor, r)
    }

    fn deinflect(&self, text: &str, cursor: usize) -> (r: Vec<Deinflection>) {
        self.deinflect_at(text, cursor)
    }
}

} // verus!
