//! What the host offers to a contract: storage cells, the caller's
//! identity, a channel for fatal faults, and the execution of stored code.

use crate::bytes::{lemma_stored_u64_of_cell, stored_u32, stored_u64, u64_cell, Bytes};
use vstd::prelude::*;

verus! {

/// What a read of `key` gives: the cell's bytes, or no bytes where there is
/// no such cell.
pub open spec fn stored_bytes(storage: Map<Seq<u8>, Seq<u8>>, key: Seq<u8>) -> Seq<u8> {
    if storage.contains_key(key) {
        storage[key]
    } else {
        Seq::empty()
    }
}

/// The cell under `key`, if there is one.
pub open spec fn cell(storage: Map<Seq<u8>, Seq<u8>>, key: Seq<u8>) -> Option<Seq<u8>> {
    if storage.contains_key(key) {
        Some(storage[key])
    } else {
        None
    }
}

/// The 32-bit number that a cell stands for. A missing cell stands for zero.
pub open spec fn cell_u32(cell: Option<Seq<u8>>) -> u32 {
    match cell {
        Some(bytes) => stored_u32(bytes),
        None => 0,
    }
}

/// The 64-bit number that a cell stands for. A missing cell stands for zero.
pub open spec fn cell_u64(cell: Option<Seq<u8>>) -> u64 {
    match cell {
        Some(bytes) => stored_u64(bytes),
        None => 0,
    }
}

/// Reads a cell as a 32-bit number: zero where the cell is missing.
pub fn read_u32_cell(cell: Option<Vec<u8>>) -> (n: u32)
    requires
        cell matches Some(bytes) ==> bytes@.len() == 4,
    ensures
        n == cell_u32(
            match cell {
                Some(bytes) => Some(bytes@),
                None => None,
            },
        ),
{
    match cell {
        Some(bytes) => bytes.value(),
        None => 0,
    }
}

/// Reads a cell as a 64-bit number: zero where the cell is missing.
pub fn read_u64_cell(cell: Option<Vec<u8>>) -> (n: u64)
    ensures
        n == cell_u64(
            match cell {
                Some(bytes) => Some(bytes@),
                None => None,
            },
        ),
{
    match cell {
        Some(bytes) => bytes.value(),
        None => 0,
    }
}

/// The capabilities that contract code and the contract registry consume.
///
/// Storage is a mapping from keys to byte arrays. A read of a key that was
/// never written gives zero, or no bytes: it is not an error.
pub trait BlockChain {
    /// The storage cells.
    spec fn storage(&self) -> Map<Seq<u8>, Seq<u8>>;

    /// The account on whose behalf the current call runs.
    spec fn caller(&self) -> Seq<u8>;

    /// The message of the fault that was signalled, if one was.
    spec fn fault(&self) -> Option<Seq<char>>;

    /// Whether running `code` with these arguments on this blockchain may
    /// end in `result` and leave the blockchain as `after`.
    spec fn executes(
        &self,
        code: Seq<u8>,
        method: Seq<char>,
        params: u32,
        address: Seq<u8>,
        result: Seq<u8>,
        after: &Self,
    ) -> bool;

    /// The cell under `key` as a 32-bit number, which takes four bytes, most
    /// significant first.
    fn read_u32(&self, key: Vec<u8>) -> (n: u32)
        requires
            self.storage().contains_key(key@) ==> self.storage()[key@].len() == 4,
        ensures
            n == cell_u32(cell(self.storage(), key@)),
    ;

    /// The cell under `key` as a 64-bit number.
    fn read_u64(&self, key: Vec<u8>) -> (n: u64)
        ensures
            n == cell_u64(cell(self.storage(), key@)),
    ;

    /// The account on whose behalf the current call runs.
    fn sender(&self) -> (account: Vec<u8>)
        ensures
            account@ == self.caller(),
    ;

    /// Stores the cell of a 64-bit number under `key`: its eight bytes,
    /// most significant first.
    fn write_u64(&mut self, key: Vec<u8>, value: u64)
        ensures
            final(self).storage() == old(self).storage().insert(key@, u64_cell(value)),
            final(self).caller() == old(self).caller(),
    ;

    /// Signals a fault that the call cannot recover from.
    fn throw(&mut self, message: &str)
        ensures
            final(self).fault() == Some(message@),
    ;

    /// The bytes stored under `key`; no bytes where nothing is stored.
    fn read(&self, key: Vec<u8>) -> (value: Vec<u8>)
        ensures
            value@ == stored_bytes(self.storage(), key@),
    ;

    /// Stores `value` under `key` in place of whatever was there.
    fn write(&mut self, key: Vec<u8>, value: Vec<u8>)
        ensures
            final(self).storage() == old(self).storage().insert(key@, value@),
            final(self).caller() == old(self).caller(),
    ;

    /// Runs `code`. What comes back, and what the run does to the
    /// blockchain, is up to the execution environment.
    fn call(&mut self, code: Vec<u8>, method: String, params: u32, address: Vec<u8>) -> (result:
        Vec<u8>)
        ensures
            old(self).executes(code@, method@, params, address@, result@, final(self)),
    ;
}

/// A 64-bit number that was written to a cell is what a read of the cell
/// gives.
pub proof fn lemma_read_u64_after_write(
    storage: Map<Seq<u8>, Seq<u8>>,
    key: Seq<u8>,
    value: u64,
)
    ensures
        cell_u64(cell(storage.insert(key, u64_cell(value)), key)) == value,
{
    lemma_stored_u64_of_cell(value);
}

/// A read of a key under which nothing is stored gives zero, as a 32-bit
/// and as a 64-bit number, and no bytes.
pub proof fn lemma_missing_cell_reads_zero(storage: Map<Seq<u8>, Seq<u8>>, key: Seq<u8>)
    requires
        !storage.contains_key(key),
    ensures
        cell_u32(cell(storage, key)) == 0,
        cell_u64(cell(storage, key)) == 0,
        stored_bytes(storage, key) == Seq::<u8>::empty(),
{
}

} // verus!
