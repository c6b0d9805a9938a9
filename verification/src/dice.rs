//! Deriving the outcome of a double roll from delivered randomness.

use vstd::prelude::*;

verus! {

/// Number of bytes in a randomness payload.
pub const RANDOMNESS_LEN: usize = 32;

/// Smallest sum two dice can show.
pub const MIN_OUTCOME: u8 = 2;

/// Largest sum two dice can show.
pub const MAX_OUTCOME: u8 = 12;

/// The face, from 1 to 6, that one byte of randomness selects.
pub open spec fn die_face(byte: u8) -> int {
    byte as int % 6 + 1
}

/// The sum of the two dice selected by the first two bytes of a payload.
pub open spec fn dice_outcome(randomness: Seq<u8>) -> int
    recommends
        randomness.len() >= 2,
{
    die_face(randomness[0]) + die_face(randomness[1])
}

/// Whether `outcome` is a sum that two six-sided dice can show.
pub open spec fn is_outcome(outcome: int) -> bool {
    MIN_OUTCOME <= outcome <= MAX_OUTCOME
}

/// Rolls one die from one byte of randomness.
pub fn roll_die(byte: u8) -> (face: u8)
    ensures
        face == die_face(byte),
        1 <= face <= 6,
{
    byte % 6 + 1
}

/// What a delivered payload settles: the sum of both dice when the payload
/// has exactly 32 bytes, nothing otherwise.
pub open spec fn payload_outcome(randomness: Seq<u8>) -> Option<u8> {
    if randomness.len() == RANDOMNESS_LEN {
        Some(dice_outcome(randomness) as u8)
    } else {
        None
    }
}

/// Rolls both dice from a delivered payload and adds them up. A payload of
/// any length other than 32 bytes settles nothing.
pub fn double_roll(randomness: &Vec<u8>) -> (outcome: Option<u8>)
    ensures
        outcome == payload_outcome(randomness@),
        outcome matches Some(sum) ==> sum == dice_outcome(randomness@) && is_outcome(sum as int),
{
    if randomness.len() != RANDOMNESS_LEN {
        return None;
    }
    let first: u8 = roll_die(randomness[0]);
    let second: u8 = roll_die(randomness[1]);
    Some(first + second)
}

} // verus!
