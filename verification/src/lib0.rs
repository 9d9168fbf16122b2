//! The lib0 encoding of a state vector, as far as a replica checks it
//! before it hands the bytes to the decoder.
//!
//! A state vector is a count followed by that many pairs of a client number
//! and a clock. Each number is written in groups of seven bits, lowest
//! first, one group to a byte; the high bit of a byte says that another
//! byte follows.

use vstd::prelude::*;

verus! {

/// How many bytes a count or a clock takes at most.
pub const CLOCK_BYTES: u8 = 5;

/// How many bytes a client number takes at most.
pub const CLIENT_BYTES: u8 = 8;

/// Client numbers stay below this: two to the fifty-third.
pub const CLIENT_LIMIT: u64 = 0x20_0000_0000_0000;

/// The number written at `at` in at most `room` bytes, with the place
/// where the bytes after it begin. There is none where the bytes end
/// before the number does, where it takes more than `room` bytes, or where
/// it goes beyond a `u64`.
pub open spec fn number_at(bytes: Seq<u8>, at: int, room: nat) -> Option<(int, int)>
    decreases room,
{
    if room == 0 || at < 0 || at >= bytes.len() {
        None
    } else if bytes[at] < 128 {
        Some((bytes[at] as int, at + 1))
    } else {
        match number_at(bytes, at + 1, (room - 1) as nat) {
            Some((rest, next)) => if bytes[at] - 128 + 128 * rest <= u64::MAX {
                Some((bytes[at] - 128 + 128 * rest, next))
            } else {
                None
            },
            None => None,
        }
    }
}

/// Whether `count` pairs of a client number below the limit and a clock
/// within a `u32` are written from `at` on.
pub open spec fn pairs_at(bytes: Seq<u8>, at: int, count: nat) -> bool
    decreases count,
{
    if count == 0 {
        true
    } else {
        match number_at(bytes, at, CLIENT_BYTES as nat) {
            Some((client, next)) => client < CLIENT_LIMIT && match number_at(
                bytes,
                next,
                CLOCK_BYTES as nat,
            ) {
                Some((clock, after)) => clock <= u32::MAX && pairs_at(
                    bytes,
                    after,
                    (count - 1) as nat,
                ),
                None => false,
            },
            None => false,
        }
    }
}

/// Whether the bytes begin with a state vector that is written in full:
/// a count within a `u32`, and as many pairs as it says, each of a client
/// number below two to the fifty-third and a clock within a `u32`, no
/// number longer than its kind allows.
pub open spec fn well_written(bytes: Seq<u8>) -> bool {
    match number_at(bytes, 0, CLOCK_BYTES as nat) {
        Some((count, at)) => count <= u32::MAX && pairs_at(bytes, at, count as nat),
        None => false,
    }
}

/// Reads the number at `at`; see [`number_at`].
pub fn read_number(bytes: &[u8], at: usize, room: u8) -> (found: Option<(u64, usize)>)
    ensures
        match found {
            Some((value, next)) => number_at(bytes@, at as int, room as nat) == Some(
                (value as int, next as int),
            ) && at < next <= bytes@.len(),
            None => number_at(bytes@, at as int, room as nat).is_none(),
        },
    decreases room,
{
    if room == 0 || at >= bytes.len() {
        return None;
    }
    let byte: u8 = bytes[at];
    if byte < 128 {
        return Some((byte as u64, at + 1));
    }
    match read_number(bytes, at + 1, room - 1) {
        Some((rest, next)) => {
            let wide: u128 = (byte - 128) as u128 + 128 * (rest as u128);
            if wide <= u64::MAX as u128 {
                Some((wide as u64, next))
            } else {
                None
            }
        },
        None => None,
    }
}

/// Checks the bytes; see [`well_written`].
pub fn is_well_written(bytes: &[u8]) -> (ok: bool)
    ensures
        ok == well_written(bytes@),
{
    let (count, start) = match read_number(bytes, 0, CLOCK_BYTES) {
        Some(found) => found,
        None => {
            return false;
        },
    };
    if count > u32::MAX as u64 {
        return false;
    }
    let mut left: u64 = count;
    let mut at: usize = start;
    while left > 0
        invariant
            at <= bytes@.len(),
            count <= u32::MAX,
            number_at(bytes@, 0, CLOCK_BYTES as nat) == Some((count as int, start as int)),
            pairs_at(bytes@, at as int, left as nat) == pairs_at(
                bytes@,
                start as int,
                count as nat,
            ),
        decreases left,
    {
        let next = match read_number(bytes, at, CLIENT_BYTES) {
            Some((client, next)) => {
                if client >= CLIENT_LIMIT {
                    return false;
                }
                next
            },
            None => {
                return false;
            },
        };
        let after = match read_number(bytes, next, CLOCK_BYTES) {
            Some((clock, after)) => {
                if clock > u32::MAX as u64 {
                    return false;
                }
                after
            },
            None => {
                return false;
            },
        };
        at = after;
        left = left - 1;
    }
    true
}

} // verus!
