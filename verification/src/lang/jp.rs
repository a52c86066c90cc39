//! Japanese-specific items: small kana, morae and binary pitch accent.

use vstd::prelude::*;

use crate::text::{chars_of, string_of};

verus! {

/// Single pitch reading for a term: the downstep position, and the morae
/// positions with a nasal or devoiced sound.
#[derive(Debug, Clone)]
pub struct Pitch {
    pub position: u64,
    pub nasal: Vec<u64>,
    pub devoice: Vec<u64>,
}

/// The small kana, hiragana or katakana, that attach to the preceding kana.
/// `っ` is not one of them.
pub open spec fn small_kana(c: char) -> bool {
    ||| c == 'ゃ' ||| c == 'ゅ' ||| c == 'ょ' ||| c == 'ぁ'
    ||| c == 'ぃ' ||| c == 'ぅ' ||| c == 'ぇ' ||| c == 'ぉ'
    ||| c == 'ャ' ||| c == 'ュ' ||| c == 'ョ' ||| c == 'ァ'
    ||| c == 'ィ' ||| c == 'ゥ' ||| c == 'ェ' ||| c == 'ォ'
}

/// The morae of a character sequence: a character followed by a small kana
/// forms one mora, every other character is a mora of its own.
pub open spec fn morae_of(s: Seq<char>) -> Seq<Seq<char>>
    decreases s.len(),
{
    if s.len() == 0 {
        Seq::empty()
    } else if s.len() >= 2 && small_kana(s[1]) {
        seq![s.take(2)] + morae_of(s.skip(2))
    } else {
        seq![s.take(1)] + morae_of(s.skip(1))
    }
}

/// Joins a sequence of character sequences back into one.
pub open spec fn concat(parts: Seq<Seq<char>>) -> Seq<char>
    decreases parts.len(),
{
    if parts.len() == 0 {
        Seq::empty()
    } else {
        parts[0] + concat(parts.drop_first())
    }
}

/// Binary pitch: for a downstep on mora `downstep`, whether the mora at
/// `position` is high.
pub open spec fn high_at(downstep: int, position: int) -> bool {
    if downstep == 0 {
        position > 0
    } else if downstep == 1 {
        position == 0
    } else {
        position > 0 && position < downstep
    }
}

/// Checks if the given character is one of the small kana characters, either
/// hiragana or katakana. This returns `false` for `っ`.
pub fn is_small_kana(c: char) -> (r: bool)
    ensures
        r == small_kana(c),
{
    c == 'ゃ' || c == 'ゅ' || c == 'ょ' || c == 'ぁ' || c == 'ぃ' || c == 'ぅ' || c == 'ぇ'
        || c == 'ぉ' || c == 'ャ' || c == 'ュ' || c == 'ョ' || c == 'ァ' || c == 'ィ' || c
        == 'ゥ' || c == 'ェ' || c == 'ォ'
}

/// The strings of a list of strings, as character sequences.
pub open spec fn views(v: Seq<String>) -> Seq<Seq<char>> {
    v.map_values(|s: String| s@)
}

/// Splits a reading (either hiragana or katakana) into its constituent morae:
/// a kana followed by a small kana is a single mora, `っ` is its own mora, and
/// every other character is its own mora.
pub fn morae(reading: &str) -> (r: Vec<String>)
    ensures
        views(r@) == morae_of(reading@),
{
    let cs = chars_of(reading);
    let n = cs.len();
    let mut out: Vec<String> = Vec::new();
    let mut i: usize = 0;
    proof {
        assert(cs@.skip(0) =~= cs@);
        assert(views(out@) =~= Seq::<Seq<char>>::empty());
    }
    while i < n
        invariant
            n == cs@.len(),
            i <= n,
            morae_of(cs@) == views(out@) + morae_of(cs@.skip(i as int)),
        decreases n - i,
    {
        let ghost rest = cs@.skip(i as int);
        let ghost before = views(out@);
        if i + 1 < n && is_small_kana(cs[i + 1]) {
            let m = string_of(&cs, i, i + 2);
            out.push(m);
            proof {
                assert(rest[1] == cs@[i + 1]);
                assert(rest.take(2) =~= cs@.subrange(i as int, i + 2));
                assert(rest.skip(2) =~= cs@.skip(i + 2));
                assert(views(out@) =~= before.push(m@));
                assert(before + morae_of(rest) =~= before.push(m@) + morae_of(cs@.skip(i + 2)));
            }
            i = i + 2;
        } else {
            let m = string_of(&cs, i, i + 1);
            out.push(m);
            proof {
                assert(rest.take(1) =~= cs@.subrange(i as int, i + 1));
                assert(rest.skip(1) =~= cs@.skip(i + 1));
                assert(views(out@) =~= before.push(m@));
                assert(before + morae_of(rest) =~= before.push(m@) + morae_of(cs@.skip(i + 1)));
            }
            i = i + 1;
        }
    }
    proof {
        assert(cs@.skip(n as int) =~= Seq::<char>::empty());
        assert(views(out@) + Seq::<Seq<char>>::empty() =~= views(out@));
    }
    out
}

/// For a pitch position where the downstep is on the mora at index
/// `downstep`, whether the mora at index `position` is high: with no downstep
/// (heiban) only the first mora is low; with the downstep at 1 (atamadaka)
/// only the first mora is high; otherwise (nakadaka or odaka) the first mora
/// is low and the morae up to, but not including, `downstep` are high.
pub fn is_high(downstep: usize, position: usize) -> (r: bool)
    ensures
        r == high_at(downstep as int, position as int),
{
    match downstep {
        0 => position > 0,
        1 => position == 0,
        _ => position > 0 && position < downstep,
    }
}

/// The small kana are exactly the eight small hiragana ぁぃぅぇぉゃゅょ
/// (U+3041, U+3043, U+3045, U+3047, U+3049, U+3083, U+3085, U+3087) and
/// their katakana counterparts, which lie 0x60 code points above them
/// (ァィゥェォャュョ); a katakana is small exactly when its hiragana
/// counterpart is.
pub proof fn lemma_small_kana_code_points(c: char)
    ensures
        small_kana(c) <==> {
            let u = c as int;
            let h = if u >= 0x30a0 {
                u - 0x60
            } else {
                u
            };
            &&& (0x3040 <= u < 0x30a0 || 0x30a0 <= u < 0x3100)
            &&& (h == 0x3041 || h == 0x3043 || h == 0x3045 || h == 0x3047 || h == 0x3049 || h
                == 0x3083 || h == 0x3085 || h == 0x3087)
        },
{
}

/// A kana followed by a small kana is one mora: whenever the second
/// character of a reading is one of the sixteen small kana (listed here by
/// code point), the first mora is the first two characters; otherwise it is
/// the first character alone.
pub proof fn lemma_small_kana_joins(s: Seq<char>)
    requires
        s.len() >= 1,
    ensures
        ({
            let small = s.len() >= 2 && {
                let u = s[1] as int;
                ||| u == 0x3041 ||| u == 0x3043 ||| u == 0x3045 ||| u == 0x3047
                ||| u == 0x3049 ||| u == 0x3083 ||| u == 0x3085 ||| u == 0x3087
                ||| u == 0x30a1 ||| u == 0x30a3 ||| u == 0x30a5 ||| u == 0x30a7
                ||| u == 0x30a9 ||| u == 0x30e3 ||| u == 0x30e5 ||| u == 0x30e7
            };
            &&& small ==> morae_of(s)[0] == s.take(2)
            &&& !small ==> morae_of(s)[0] == s.take(1)
        }),
{
    lemma_small_kana_code_points(s[1]);
}

/// Joining the morae of a reading gives back the reading.
pub proof fn lemma_morae_concat(s: Seq<char>)
    ensures
        concat(morae_of(s)) == s,
    decreases s.len(),
{
    if s.len() == 0 {
    } else if s.len() >= 2 && small_kana(s[1]) {
        lemma_morae_concat(s.skip(2));
        let parts = seq![s.take(2)] + morae_of(s.skip(2));
        assert(parts.drop_first() =~= morae_of(s.skip(2)));
        assert(s.take(2) + s.skip(2) =~= s);
    } else {
        lemma_morae_concat(s.skip(1));
        let parts = seq![s.take(1)] + morae_of(s.skip(1));
        assert(parts.drop_first() =~= morae_of(s.skip(1)));
        assert(s.take(1) + s.skip(1) =~= s);
    }
}

/// Every mora is one character, or two characters of which the second is a
/// small kana.
pub proof fn lemma_morae_shape(s: Seq<char>, k: int)
    requires
        0 <= k < morae_of(s).len(),
    ensures
        morae_of(s)[k].len() == 1 || (morae_of(s)[k].len() == 2 && small_kana(morae_of(s)[k][1])),
    decreases s.len(),
{
    if s.len() >= 2 && small_kana(s[1]) {
        if k > 0 {
            lemma_morae_shape(s.skip(2), k - 1);
        }
    } else if s.len() > 0 {
        if k > 0 {
            lemma_morae_shape(s.skip(1), k - 1);
        }
    }
}

} // verus!
