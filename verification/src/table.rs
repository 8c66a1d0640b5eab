//! Scales that repeat a table of pitches, each time one period higher.
use vstd::arithmetic::div_mod::{lemma_fundamental_div_mod, lemma_fundamental_div_mod_converse};
use vstd::prelude::*;

verus! {

/// Where a note falls in such a scale: `index` is its place in the table,
/// and `periods` is how many whole periods lie below it.
#[derive(Clone, Copy, Debug, PartialEq, Eq, Structural)]
pub struct TablePlace {
    pub index: usize,
    pub periods: u64,
}

/// The place of `note` in a scale that repeats a table of `len` pitches.
pub open spec fn place_of(note: nat, len: nat) -> TablePlace {
    TablePlace { index: (note % len) as usize, periods: (note / len) as u64 }
}

/// Finds the place of `note` in a scale that repeats a table of `len`
/// pitches: the notes 0 to `len - 1` are the table itself, the next `len`
/// notes are the table one period higher, and so on.
pub fn table_place(note: u64, len: usize) -> (place: TablePlace)
    requires
        len > 0,
    ensures
        place == place_of(note as nat, len as nat),
        place.index < len,
        note == place.periods * len + place.index,
{
    let width: u64 = len as u64;
    proof {
        lemma_fundamental_div_mod(note as int, width as int);
        assert((note / width) * len == width * (note / width)) by (nonlinear_arith)
            requires
                width == len,
        ;
    }
    TablePlace { index: (note % width) as usize, periods: note / width }
}

/// One table length further up, a note has the same place in the table,
/// one period higher.
pub proof fn lemma_next_period(note: nat, len: nat)
    requires
        len > 0,
        note + len <= u64::MAX,
        len <= usize::MAX,
    ensures
        place_of(note + len, len).index == place_of(note, len).index,
        place_of(note + len, len).periods == place_of(note, len).periods + 1,
{
    lemma_fundamental_div_mod(note as int, len as int);
    let q = note as int / len as int;
    let r = note as int % len as int;
    assert(len * (q + 1) + r == note + len) by (nonlinear_arith)
        requires
            note == len * q + r,
    ;
    lemma_fundamental_div_mod_converse((note + len) as int, len as int, q + 1, r);
    assert(q <= note) by (nonlinear_arith)
        requires
            note == len * q + r,
            len >= 1,
            r >= 0,
            q >= 0,
    ;
}

} // verus!
