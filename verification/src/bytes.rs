//! Numbers as byte arrays at the edge of storage.
//!
//! A storage cell holds a number most significant byte first: four bytes
//! for a 32-bit number, eight for a 64-bit one. [`FromBytes::from_u64`]
//! makes the cell of a 64-bit number and [`Bytes::value`] reads it back.

use crate::numeric::{
    lemma_u64_bytes_of_value, lemma_u64_round_trip, u32_value, u64_bytes, u64_to_u8_vec,
    u64_value, u8_vec_to_u32, u8_vec_to_u64,
};
use vstd::prelude::*;

verus! {

/// Makes the byte array that stands for a number.
pub trait FromBytes {

}

impl dyn FromBytes {
    /// The cell of a 64-bit number: its eight bytes, most significant
    /// first. Read as a 64-bit number, the cell gives `value` back.
    pub fn from_u64(value: u64) -> (bytes: Vec<u8>)
        ensures
            bytes@ == u64_cell(value),
            stored_u64(bytes@) == value,
    {
        proof {
            lemma_stored_u64_of_cell(value);
        }
        u64_to_u8_vec(value, true)
    }
}

/// The cell that holds a 64-bit number: its eight bytes, most significant
/// first.
pub open spec fn u64_cell(value: u64) -> Seq<u8> {
    u64_bytes(value, true)
}

/// The number that a stored 64-bit cell stands for: eight bytes, most
/// significant first. A cell of any other length stands for zero.
pub open spec fn stored_u64(bytes: Seq<u8>) -> u64 {
    if bytes.len() == 8 {
        u64_value(bytes, true) as u64
    } else {
        0
    }
}

/// The cell of a 64-bit number reads back as that number.
pub proof fn lemma_stored_u64_of_cell(value: u64)
    ensures
        u64_cell(value).len() == 8,
        stored_u64(u64_cell(value)) == value,
{
    lemma_u64_round_trip(value, true);
}

/// A cell of eight bytes is the cell of the number that it reads as: no
/// two such cells stand for the same number.
pub proof fn lemma_cell_of_stored_u64(bytes: Seq<u8>)
    requires
        bytes.len() == 8,
    ensures
        u64_cell(stored_u64(bytes)) == bytes,
{
    lemma_u64_bytes_of_value(bytes, true);
}

/// The number that a stored 32-bit cell stands for: four bytes, most
/// significant first.
pub open spec fn stored_u32(bytes: Seq<u8>) -> u32
    recommends
        bytes.len() == 4,
{
    u32_value(bytes, true) as u32
}

/// A byte array read as a number of type `T`.
pub trait Bytes<T> {
    /// Whether the byte array has a length that a `T` can be read from.
    spec fn readable(&self) -> bool;

    /// The number that the byte array stands for.
    spec fn number(&self) -> T;

    /// Reads the number that the byte array stands for.
    fn value(&self) -> (n: T)
        requires
            self.readable(),
        ensures
            n == self.number(),
    ;
}

/// Eight bytes, most significant first; any other length reads as zero.
impl Bytes<u64> for Vec<u8> {
    open spec fn readable(&self) -> bool {
        true
    }

    open spec fn number(&self) -> u64 {
        stored_u64(self@)
    }

    fn value(&self) -> (n: u64) {
        if self.len() == 8 {
            u8_vec_to_u64(self.clone(), true)
        } else {
            0
        }
    }
}

/// Exactly four bytes, most significant first.
impl Bytes<u32> for Vec<u8> {
    open spec fn readable(&self) -> bool {
        self@.len() == 4
    }

    open spec fn number(&self) -> u32 {
        stored_u32(self@)
    }

    fn value(&self) -> (n: u32) {
        u8_vec_to_u32(self.clone(), true)
    }
}

} // verus!
