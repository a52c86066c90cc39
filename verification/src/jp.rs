//! Japanese helpers under their older names; each one agrees with its
//! counterpart in [`crate::lang::jp`].

use vstd::prelude::*;

use crate::lang::jp::{high_at, morae, small_kana, morae_of, views};

verus! {

/// Checks if the given character is one of the small kana characters, either
/// hiragana or katakana (not `っ`).
pub fn is_small_kana(c: char) -> (r: bool)
    ensures
        r == small_kana(c),
{
    crate::lang::jp::is_small_kana(c)
}

/// Splits a reading into its morae (see [`crate::lang::jp::morae`]).
pub fn mora(reading: &str) -> (r: Vec<String>)
    ensures
        views(r@) == morae_of(reading@),
{
    morae(reading)
}

/// Whether the mora at `position` is high for a downstep at `downstep`
/// (see [`crate::lang::jp::is_high`]).
pub fn is_high(downstep: usize, position: usize) -> (r: bool)
    ensures
        r == high_at(downstep as int, position as int),
{
    crate::lang::jp::is_high(downstep, position)
}

} // verus!
