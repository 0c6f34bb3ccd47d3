//! A blockchain that lives in memory, for trying contracts out.
//!
//! Storage is kept as the list of all writes, oldest first: a read sees the
//! last write to its key. No code is ever run: a call hands back the code
//! that it was asked to run.

use crate::blockchain::{cell, read_u32_cell, read_u64_cell, BlockChain};
use crate::bytes::FromBytes;
use vstd::prelude::*;

verus! {

/// The account that calls by default.
pub const SENDER: [u8; 20] = [0, 0, 0, 0, 0, 0, 0, 0, 0, 0, 0, 0, 0, 0, 0, 0, 0, 0, 0, 1];

/// An account for tests.
pub const ALICE: [u8; 20] = [0, 0, 0, 0, 0, 0, 0, 0, 0, 0, 0, 0, 0, 0, 0, 0, 0, 0, 0, 2];

/// Another account for tests.
pub const BOB: [u8; 20] = [0, 0, 0, 0, 0, 0, 0, 0, 0, 0, 0, 0, 0, 0, 0, 0, 0, 0, 0, 3];

/// One write to storage.
struct StoredWrite {
    key: Vec<u8>,
    value: Vec<u8>,
}

/// The storage that a list of writes, oldest first, amounts to.
pub open spec fn replay(writes: Seq<(Seq<u8>, Seq<u8>)>) -> Map<Seq<u8>, Seq<u8>>
    decreases writes.len(),
{
    if writes.len() == 0 {
        Map::empty()
    } else {
        replay(writes.drop_last()).insert(writes.last().0, writes.last().1)
    }
}

/// Writes that come after position `from` and go to other keys do not
/// change what is stored under `key`.
proof fn lemma_replay_skips_other_keys(writes: Seq<(Seq<u8>, Seq<u8>)>, key: Seq<u8>, from: int)
    requires
        0 <= from <= writes.len(),
        forall|j: int| from <= j < writes.len() ==> writes[j].0 != key,
    ensures
        cell(replay(writes), key) == cell(replay(writes.take(from)), key),
    decreases writes.len(),
{
    if from == writes.len() {
        assert(writes.take(from) =~= writes);
    } else {
        lemma_replay_skips_other_keys(writes.drop_last(), key, from);
        assert(writes.drop_last().take(from) =~= writes.take(from));
    }
}

/// A blockchain in memory.
pub struct FakeBlockChain {
    writes: Vec<StoredWrite>,
    sender: Vec<u8>,
    fault: Option<String>,
}

impl FakeBlockChain {
    /// The writes so far, oldest first, as keys and values.
    closed spec fn written(&self) -> Seq<(Seq<u8>, Seq<u8>)> {
        Seq::new(self.writes@.len(), |i: int| (self.writes@[i].key@, self.writes@[i].value@))
    }

    /// A blockchain with nothing stored, on which `sender` is the caller.
    pub fn new(sender: Vec<u8>) -> (blockchain: FakeBlockChain)
        ensures
            blockchain.storage() == Map::<Seq<u8>, Seq<u8>>::empty(),
            blockchain.caller() == sender@,
            blockchain.fault() is None,
    {
        FakeBlockChain { writes: Vec::new(), sender, fault: None }
    }

    /// The message of the fault that was signalled, if one was.
    pub fn fault_message(&self) -> (message: Option<&String>)
        ensures
            message is Some <==> self.fault() is Some,
            message matches Some(text) ==> self.fault() == Some(text@),
    {
        self.fault.as_ref()
    }

    /// The cell under `key`, if there is one: the value of the last write
    /// to `key`.
    fn lookup(&self, key: &Vec<u8>) -> (found: Option<Vec<u8>>)
        ensures
            (match found {
                Some(value) => Some(value@),
                None => None,
            }) == cell(self.storage(), key@),
    {
        let mut i: usize = self.writes.len();
        while i > 0
            invariant
                i <= self.writes@.len(),
                forall|j: int| i <= j < self.writes@.len() ==> self.written()[j].0 != key@,
            decreases i,
        {
            i -= 1;
            if same_bytes(&self.writes[i].key, key) {
                let value = self.writes[i].value.clone();
                proof {
                    let upto = self.written().take(i + 1);
                    lemma_replay_skips_other_keys(self.written(), key@, i + 1);
                    assert(upto.last() == self.written()[i as int]);
                    assert(value@ == self.writes@[i as int].value@);
                }
                return Some(value);
            }
        }
        proof {
            lemma_replay_skips_other_keys(self.written(), key@, 0);
        }
        None
    }

    /// Appends one write.
    fn store(&mut self, key: Vec<u8>, value: Vec<u8>)
        ensures
            final(self).storage() == old(self).storage().insert(key@, value@),
            final(self).caller() == old(self).caller(),
            final(self).fault() == old(self).fault(),
    {
        self.writes.push(StoredWrite { key, value });
        proof {
            assert(self.written().drop_last() =~= old(self).written());
        }
    }
}

/// Whether two byte arrays hold the same bytes.
fn same_bytes(a: &Vec<u8>, b: &Vec<u8>) -> (same: bool)
    ensures
        same <==> a@ == b@,
{
    if a.len() != b.len() {
        return false;
    }
    let mut i: usize = 0;
    while i < a.len()
        invariant
            i <= a@.len(),
            a@.len() == b@.len(),
            forall|j: int| 0 <= j < i ==> a@[j] == b@[j],
        decreases a@.len() - i,
    {
        if a[i] != b[i] {
            return false;
        }
        i += 1;
    }
    assert(a@ =~= b@);
    true
}

impl BlockChain for FakeBlockChain {
    closed spec fn storage(&self) -> Map<Seq<u8>, Seq<u8>> {
        replay(self.written())
    }

    closed spec fn caller(&self) -> Seq<u8> {
        self.sender@
    }

    closed spec fn fault(&self) -> Option<Seq<char>> {
        match self.fault {
            Some(message) => Some(message@),
            None => None,
        }
    }

    /// Nothing is run: the result is the code itself, and nothing is
    /// stored, signalled or changed.
    open spec fn executes(
        &self,
        code: Seq<u8>,
        method: Seq<char>,
        params: u32,
        address: Seq<u8>,
        result: Seq<u8>,
        after: &Self,
    ) -> bool {
        &&& result == code
        &&& after.storage() == self.storage()
        &&& after.caller() == self.caller()
        &&& after.fault() == self.fault()
    }

    fn read_u32(&self, key: Vec<u8>) -> (n: u32) {
        read_u32_cell(self.lookup(&key))
    }

    fn read_u64(&self, key: Vec<u8>) -> (n: u64) {
        read_u64_cell(self.lookup(&key))
    }

    fn sender(&self) -> (account: Vec<u8>) {
        self.sender.clone()
    }

    fn write_u64(&mut self, key: Vec<u8>, value: u64) {
        self.store(key, <dyn FromBytes>::from_u64(value));
    }

    /// The fault replaces an earlier one; storage stays as it is.
    fn throw(&mut self, message: &str)
        ensures
            final(self).storage() == old(self).storage(),
            final(self).caller() == old(self).caller(),
    {
        self.fault = Some(message.to_owned());
    }

    fn read(&self, key: Vec<u8>) -> (value: Vec<u8>) {
        match self.lookup(&key) {
            Some(value) => value,
            None => Vec::new(),
        }
    }

    fn write(&mut self, key: Vec<u8>, value: Vec<u8>) {
        self.store(key, value);
    }

    fn call(&mut self, code: Vec<u8>, method: String, params: u32, address: Vec<u8>) -> (result:
        Vec<u8>) {
        code
    }
}

impl Default for FakeBlockChain {
    /// A blockchain with nothing stored, on which [`SENDER`] is the caller.
    fn default() -> (blockchain: FakeBlockChain)
        ensures
            blockchain.storage() == Map::<Seq<u8>, Seq<u8>>::empty(),
            blockchain.caller() == SENDER@,
            blockchain.fault() is None,
    {
        FakeBlockChain::new(vstd::slice::slice_to_vec(SENDER.as_slice()))
    }
}

} // verus!
