//! Decimal integers: parsing, as `str::parse` does it for `i64` and `u64`,
//! and writing, as their `Display` does it.

use vstd::prelude::*;

use crate::text::{chars_of, push_char};

verus! {

/// Whether `c` is an ASCII decimal digit.
pub open spec fn is_digit(c: char) -> bool {
    '0' <= c && c <= '9'
}

/// Value of the decimal digits `ds`.
pub open spec fn digits_value(ds: Seq<char>) -> int
    decreases ds.len(),
{
    if ds.len() == 0 {
        0
    } else {
        digits_value(ds.drop_last()) * 10 + (ds.last() as int - '0' as int)
    }
}

/// Whether every character of `ds` is a decimal digit.
pub open spec fn all_digits(ds: Seq<char>) -> bool {
    forall|i: int| 0 <= i < ds.len() ==> is_digit(#[trigger] ds[i])
}

/// The `i64` written in `s`: an optional `+` or `-` sign, then one or more
/// decimal digits, with a value in range; `None` for anything else.
pub open spec fn parsed_i64(s: Seq<char>) -> Option<i64> {
    let neg = s.len() > 0 && s[0] == '-';
    let signed = s.len() > 0 && (s[0] == '-' || s[0] == '+');
    let ds = if signed {
        s.drop_first()
    } else {
        s
    };
    let v = if neg {
        -digits_value(ds)
    } else {
        digits_value(ds)
    };
    if ds.len() == 0 || !all_digits(ds) || v < i64::MIN || v > i64::MAX {
        None
    } else {
        Some(v as i64)
    }
}

proof fn lemma_digits_nonneg_monotone(ds: Seq<char>, i: int)
    requires
        all_digits(ds),
        0 <= i <= ds.len(),
    ensures
        0 <= digits_value(ds.take(i)) <= digits_value(ds),
    decreases ds.len(),
{
    if ds.len() > 0 {
        if i == ds.len() {
            assert(ds.take(i) =~= ds);
            lemma_digits_nonneg_monotone(ds.drop_last(), ds.len() - 1);
            assert(ds.drop_last().take(ds.len() - 1) =~= ds.drop_last());
        } else {
            assert(all_digits(ds.drop_last())) by {
                assert forall|j: int| 0 <= j < ds.drop_last().len() implies is_digit(#[trigger] ds.drop_last()[j]) by {
                    assert(ds.drop_last()[j] == ds[j]);
                }
            }
            lemma_digits_nonneg_monotone(ds.drop_last(), i);
            assert(ds.drop_last().take(i) =~= ds.take(i));
            lemma_digits_nonneg_monotone(ds.drop_last(), ds.len() - 1);
            assert(ds.drop_last().take(ds.len() - 1) =~= ds.drop_last());
            assert(is_digit(ds[ds.len() - 1]));
        }
    } else {
        assert(ds.take(i) =~= ds);
    }
}

/// Parses a decimal `i64` (see [`parsed_i64`]).
#[verifier::spinoff_prover]
#[verifier::rlimit(40)]
pub fn parse_i64(s: &str) -> (r: Option<i64>)
    ensures
        r == parsed_i64(s@),
{
    let cs = chars_of(s);
    let n = cs.len();
    let neg = n > 0 && cs[0] == '-';
    let signed = n > 0 && (cs[0] == '-' || cs[0] == '+');
    let start: usize = if signed {
        1
    } else {
        0
    };
    let ghost ds = if signed {
        s@.drop_first()
    } else {
        s@
    };
    proof {
        assert(ds =~= cs@.skip(start as int));
        assert(neg == (s@.len() > 0 && s@[0] == '-'));
    }
    if start >= n {
        return None;
    }
    // The magnitude may reach 2^63 when negative.
    let limit: u64 = if neg {
        0x8000_0000_0000_0000u64
    } else {
        0x7fff_ffff_ffff_ffffu64
    };
    let mut acc: u64 = 0;
    let mut i: usize = start;
    while i < n
        invariant
            cs@ == s@,
            n == cs@.len(),
            start <= i <= n,
            ds == cs@.skip(start as int),
            ds == (if signed { s@.drop_first() } else { s@ }),
            neg == (s@.len() > 0 && s@[0] == '-'),
            signed == (s@.len() > 0 && (s@[0] == '-' || s@[0] == '+')),
            all_digits(ds.take(i - start)),
            acc == digits_value(ds.take(i - start)),
            acc <= limit,
            limit == (if neg {
                0x8000_0000_0000_0000u64
            } else {
                0x7fff_ffff_ffff_ffffu64
            }),
        decreases n - i,
    {
        let c = cs[i];
        let ghost pre = ds.take(i - start);
        let ghost post = ds.take(i - start + 1);
        proof {
            assert(post.drop_last() =~= pre);
            assert(post.last() == c);
        }
        if !('0' <= c && c <= '9') {
            proof {
                assert(ds[i - start] == c);
                assert(!is_digit(ds[i - start]));
                assert(!all_digits(ds));
                assert(ds == (if signed { s@.drop_first() } else { s@ }));
                assert(neg == (s@.len() > 0 && s@[0] == '-'));
                assert(signed == (s@.len() > 0 && (s@[0] == '-' || s@[0] == '+')));
            }
            return None;
        }
        let d = (c as u32 - '0' as u32) as u64;
        if acc > (limit - d) / 10 {
            proof {
                assert(acc * 10 + d > limit) by (nonlinear_arith)
                    requires
                        acc > (limit - d) / 10,
                        d <= 9,
                        limit >= 9,
                ;
                assert(digits_value(post) == acc * 10 + d);
                if all_digits(ds) {
                    lemma_digits_nonneg_monotone(ds, i - start + 1);
                    assert(digits_value(ds) > limit);
                }
                assert(ds == (if signed { s@.drop_first() } else { s@ }));
                assert(neg == (s@.len() > 0 && s@[0] == '-'));
                assert(signed == (s@.len() > 0 && (s@[0] == '-' || s@[0] == '+')));
            }
            return None;
        }
        proof {
            assert((acc as int) * 10 + d <= limit) by (nonlinear_arith)
                requires
                    acc <= (limit - d) / 10,
                    d <= 9,
                    limit >= 9,
            ;
            assert(all_digits(post)) by {
                assert forall|j: int| 0 <= j < post.len() implies is_digit(#[trigger] post[j]) by {
                    if j < pre.len() {
                        assert(post[j] == pre[j]);
                    }
                }
            }
        }
        acc = acc * 10 + d;
        i = i + 1;
    }
    proof {
        assert(ds.take(n - start) =~= ds);
    }
    if neg {
        if acc == 0x8000_0000_0000_0000u64 {
            Some(i64::MIN)
        } else {
            Some(-(acc as i64))
        }
    } else {
        Some(acc as i64)
    }
}

/// The `u64` written in `s`: an optional `+` sign, then one or more decimal
/// digits, with a value in range; `None` for anything else.
pub open spec fn parsed_u64(s: Seq<char>) -> Option<u64> {
    let signed = s.len() > 0 && s[0] == '+';
    let ds = if signed {
        s.drop_first()
    } else {
        s
    };
    if ds.len() == 0 || !all_digits(ds) || digits_value(ds) > u64::MAX {
        None
    } else {
        Some(digits_value(ds) as u64)
    }
}

/// Parses a decimal `u64` (see [`parsed_u64`]).
#[verifier::spinoff_prover]
#[verifier::rlimit(40)]
pub fn parse_u64(s: &str) -> (r: Option<u64>)
    ensures
        r == parsed_u64(s@),
{
    let cs = chars_of(s);
    let n = cs.len();
    let signed = n > 0 && cs[0] == '+';
    let start: usize = if signed {
        1
    } else {
        0
    };
    let ghost ds = if signed {
        s@.drop_first()
    } else {
        s@
    };
    proof {
        assert(ds =~= cs@.skip(start as int));
    }
    if start >= n {
        return None;
    }
    let limit: u64 = 0xffff_ffff_ffff_ffffu64;
    let mut acc: u64 = 0;
    let mut i: usize = start;
    while i < n
        invariant
            cs@ == s@,
            n == cs@.len(),
            start <= i <= n,
            ds == cs@.skip(start as int),
            ds == (if signed { s@.drop_first() } else { s@ }),
            signed == (s@.len() > 0 && s@[0] == '+'),
            all_digits(ds.take(i - start)),
            acc == digits_value(ds.take(i - start)),
            limit == 0xffff_ffff_ffff_ffffu64,
        decreases n - i,
    {
        let c = cs[i];
        let ghost pre = ds.take(i - start);
        let ghost post = ds.take(i - start + 1);
        proof {
            assert(post.drop_last() =~= pre);
            assert(post.last() == c);
        }
        if !('0' <= c && c <= '9') {
            proof {
                assert(ds[i - start] == c);
                assert(!is_digit(ds[i - start]));
                assert(!all_digits(ds));
            }
            return None;
        }
        let d = (c as u32 - '0' as u32) as u64;
        if acc > (limit - d) / 10 {
            proof {
                assert(acc * 10 + d > limit) by (nonlinear_arith)
                    requires
                        acc > (limit - d) / 10,
                        d <= 9,
                        limit >= 9,
                ;
                assert(digits_value(post) == acc * 10 + d);
                if all_digits(ds) {
                    lemma_digits_nonneg_monotone(ds, i - start + 1);
                    assert(digits_value(ds) > limit);
                }
            }
            return None;
        }
        proof {
            assert((acc as int) * 10 + d <= limit) by (nonlinear_arith)
                requires
                    acc <= (limit - d) / 10,
                    d <= 9,
                    limit >= 9,
            ;
            assert(all_digits(post)) by {
                assert forall|j: int| 0 <= j < post.len() implies is_digit(#[trigger] post[j]) by {
                    if j < pre.len() {
                        assert(post[j] == pre[j]);
                    }
                }
            }
        }
        acc = acc * 10 + d;
        i = i + 1;
    }
    proof {
        assert(ds.take(n - start) =~= ds);
    }
    Some(acc)
}

/// The decimal digit for `d`, which is below ten.
pub open spec fn digit_char(d: nat) -> char {
    ((d + '0' as nat) as u32) as char
}

/// The decimal text of `n`, without leading zeros (`"0"` for zero).
pub open spec fn decimal(n: nat) -> Seq<char>
    decreases n,
{
    if n < 10 {
        seq![digit_char(n)]
    } else {
        decimal(n / 10).push(digit_char(n % 10))
    }
}

/// The decimal text of `n`, with a leading `-` when it is negative.
pub open spec fn decimal_i(n: int) -> Seq<char> {
    if n < 0 {
        seq!['-'] + decimal((-n) as nat)
    } else {
        decimal(n as nat)
    }
}

/// The decimal text of a number is digits only, starts with a digit, and
/// has the number as its value.
pub proof fn lemma_decimal_digits(n: nat)
    ensures
        decimal(n).len() > 0,
        all_digits(decimal(n)),
        digits_value(decimal(n)) == n,
    decreases n,
{
    if n < 10 {
        let c = digit_char(n);
        assert(c as int == n + '0' as int);
        assert(decimal(n).drop_last() =~= Seq::<char>::empty());
        assert(digits_value(decimal(n)) == digits_value(decimal(n).drop_last()) * 10 + (decimal(n).last() as int - '0' as int));
        assert(digits_value(Seq::<char>::empty()) == 0);
    } else {
        lemma_decimal_digits(n / 10);
        let d = decimal(n);
        let c = digit_char(n % 10);
        assert(c as int == n % 10 + '0' as int);
        assert(d.drop_last() =~= decimal(n / 10));
        assert(d.last() == c);
        assert forall|j: int| 0 <= j < d.len() implies is_digit(#[trigger] d[j]) by {
            if j < d.len() - 1 {
                assert(d[j] == decimal(n / 10)[j]);
            }
        }
        assert(digits_value(d) == digits_value(d.drop_last()) * 10 + (d.last() as int - '0' as int));
        assert(digits_value(d.drop_last()) == n / 10);
        assert((n / 10) * 10 + n % 10 == n) by (nonlinear_arith);
    }
}

/// Numbers written in decimal read back: parsing the text [`decimal`] gives
/// for a `u64` yields that `u64`, and parsing the text [`decimal_i`] gives
/// for an `i64` yields that `i64`.
pub proof fn lemma_decimal_parses(u: u64, i: i64)
    ensures
        parsed_u64(decimal(u as nat)) == Some(u),
        parsed_i64(decimal_i(i as int)) == Some(i),
{
    lemma_decimal_digits(u as nat);
    assert(is_digit(decimal(u as nat)[0]));
    if i < 0 {
        let m = (-(i as int)) as nat;
        lemma_decimal_digits(m);
        let s = decimal_i(i as int);
        assert(s[0] == '-');
        assert(s.drop_first() =~= decimal(m));
    } else {
        lemma_decimal_digits(i as nat);
        assert(is_digit(decimal(i as nat)[0]));
    }
}

/// Appends the decimal text of `n` to `out`.
pub fn push_decimal_u64(out: &mut String, n: u64)
    ensures
        final(out)@ == old(out)@ + decimal(n as nat),
{
    // digits, least significant first
    let mut rev: Vec<char> = Vec::new();
    let mut m: u64 = n;
    let ghost mut tail: Seq<char> = Seq::empty();
    loop
        invariant_except_break
            m <= n,
            decimal(n as nat) == decimal(m as nat) + tail,
        invariant
            forall|k: int| 0 <= k < rev@.len() ==> #[trigger] rev@[k] == tail[tail.len() - 1 - k],
            rev@.len() == tail.len(),
        ensures
            decimal(n as nat) == tail,
        decreases m,
    {
        let d = m % 10;
        let c = char_of_digit(d);
        proof {
            if m >= 10 {
                assert(decimal(m as nat) == decimal((m / 10) as nat).push(digit_char((m % 10) as nat)));
                assert(decimal(m as nat) + tail =~= decimal((m / 10) as nat) + (seq![c] + tail));
            }
        }
        if m < 10 {
            rev.push(c);
            proof {
                assert(decimal(m as nat) =~= seq![c]);
                tail = seq![c] + tail;
                assert(decimal(n as nat) =~= tail);
            }
            break;
        }
        rev.push(c);
        proof {
            tail = seq![c] + tail;
        }
        m = m / 10;
    }
    let ghost start = out@;
    let mut i = rev.len();
    while i > 0
        invariant
            i <= rev@.len(),
            rev@.len() == tail.len(),
            decimal(n as nat) == tail,
            forall|k: int| 0 <= k < rev@.len() ==> #[trigger] rev@[k] == tail[tail.len() - 1 - k],
            out@ == start + tail.take(tail.len() - i),
        decreases i,
    {
        i = i - 1;
        push_char(out, rev[i]);
        proof {
            assert(rev@[i as int] == tail[tail.len() - 1 - i]);
            assert(tail.take(tail.len() - i) =~= tail.take(tail.len() - 1 - i).push(rev@[i as int]));
        }
    }
    proof {
        assert(tail.take(tail.len() as int) =~= tail);
    }
}

/// The character of the decimal digit `d`.
fn char_of_digit(d: u64) -> (c: char)
    requires
        d < 10,
    ensures
        c == digit_char(d as nat),
{
    if d == 0 { '0' }
    else if d == 1 { '1' }
    else if d == 2 { '2' }
    else if d == 3 { '3' }
    else if d == 4 { '4' }
    else if d == 5 { '5' }
    else if d == 6 { '6' }
    else if d == 7 { '7' }
    else if d == 8 { '8' }
    else { '9' }
}

/// Appends the decimal text of `n` to `out`, with a `-` when negative.
pub fn push_decimal_i64(out: &mut String, n: i64)
    ensures
        final(out)@ == old(out)@ + decimal_i(n as int),
{
    if n < 0 {
        push_char(out, '-');
        // the magnitude, which for `i64::MIN` is one more than `i64::MAX`
        let m: u64 = ((-(n + 1)) as u64) + 1;
        let ghost mid = out@;
        push_decimal_u64(out, m);
        proof {
            assert(out@ =~= old(out)@ + (seq!['-'] + decimal(m as nat)));
        }
    } else {
        push_decimal_u64(out, n as u64);
    }
}

} // verus!
