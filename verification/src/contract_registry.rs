//! The contract registry: where a contract's code is kept, and how it is
//! found again and run.
//!
//! The code of the contract that an account deployed under a name is stored
//! under the account's bytes followed by the UTF-8 bytes of the name, with
//! nothing in between.

use crate::blockchain::{stored_bytes, BlockChain};
use crate::error::Error;
use crate::value::{Value, ValueView};
use vstd::prelude::*;
use vstd::slice::slice_to_vec;
use vstd::utf8::encode_utf8;

verus! {

/// The number of bytes in an account identifier.
pub const ACCOUNT_BYTE_COUNT: usize = 20;

/// The storage key of the contract that `account` deployed as
/// `contract_name`.
pub open spec fn contract_address(account: Seq<u8>, contract_name: Seq<char>) -> Seq<u8> {
    account + encode_utf8(contract_name)
}

/// Storage after `account` has deployed `code` as `contract_name`.
pub open spec fn deployed(
    storage: Map<Seq<u8>, Seq<u8>>,
    account: Seq<u8>,
    contract_name: Seq<char>,
    code: Seq<u8>,
) -> Map<Seq<u8>, Seq<u8>> {
    storage.insert(contract_address(account, contract_name), code)
}

/// The code that a call to the contract of `account` named `contract_name`
/// runs: what is stored at its address, or no code at all.
pub open spec fn code_at(
    storage: Map<Seq<u8>, Seq<u8>>,
    account: Seq<u8>,
    contract_name: Seq<char>,
) -> Seq<u8> {
    stored_bytes(storage, contract_address(account, contract_name))
}

/// Computes the storage key of a contract.
pub fn address_of(account: &[u8], contract_name: &str) -> (address: Vec<u8>)
    ensures
        address@ == contract_address(account@, contract_name@),
{
    let mut address = slice_to_vec(account);
    let mut name = slice_to_vec(contract_name.as_bytes());
    address.append(&mut name);
    address
}

/// Deploys and calls contracts on a blockchain.
pub struct ContractRegistry<T: BlockChain> {
    pub blockchain: T,
}

impl<B: BlockChain> ContractRegistry<B> {
    /// Stores `code` as the caller's contract `contract_name`, in place of
    /// any code that was stored under that name before.
    pub fn deploy(&mut self, contract_name: String, code: Vec<u8>) -> (result: Result<
        Value,
        Error,
    >)
        ensures
            result matches Ok(value) && value@ == ValueView::Null,
            final(self).blockchain.storage() == deployed(
                old(self).blockchain.storage(),
                old(self).blockchain.caller(),
                contract_name@,
                code@,
            ),
            final(self).blockchain.caller() == old(self).blockchain.caller(),
    {
        let sender = self.blockchain.sender();
        let address = address_of(sender.as_slice(), contract_name.as_str());
        self.blockchain.write(address, code);
        Ok(Value::Null)
    }

    /// Runs the code of the contract of `account` named `contract_name` and
    /// hands back whatever the execution produces. Where no code is stored,
    /// the execution is handed no code. The registry itself stores nothing:
    /// the blockchain is left as the execution has left it.
    pub fn call(
        &mut self,
        account: Vec<u8>,
        contract_name: String,
        method: String,
        params: u32,
    ) -> (result: Vec<u8>)
        ensures
            old(self).blockchain.executes(
                code_at(old(self).blockchain.storage(), account@, contract_name@),
                method@,
                params,
                contract_address(account@, contract_name@),
                result@,
                &final(self).blockchain,
            ),
    {
        let address = address_of(account.as_slice(), contract_name.as_str());
        let code = self.blockchain.read(address.clone());
        self.blockchain.call(code, method, params, address)
    }
}

/// A call finds exactly the code that was deployed under the same account
/// and name.
pub proof fn lemma_call_finds_deployed_code(
    storage: Map<Seq<u8>, Seq<u8>>,
    account: Seq<u8>,
    contract_name: Seq<char>,
    code: Seq<u8>,
)
    ensures
        code_at(deployed(storage, account, contract_name, code), account, contract_name) == code,
{
}

/// A second deployment under the same account and name replaces the first:
/// storage is as if the first had never happened, and a call finds the
/// second code only.
pub proof fn lemma_redeploy_replaces_code(
    storage: Map<Seq<u8>, Seq<u8>>,
    account: Seq<u8>,
    contract_name: Seq<char>,
    first: Seq<u8>,
    second: Seq<u8>,
)
    ensures
        deployed(
            deployed(storage, account, contract_name, first),
            account,
            contract_name,
            second,
        ) == deployed(storage, account, contract_name, second),
        code_at(
            deployed(
                deployed(storage, account, contract_name, first),
                account,
                contract_name,
                second,
            ),
            account,
            contract_name,
        ) == second,
{
    assert(deployed(
        deployed(storage, account, contract_name, first),
        account,
        contract_name,
        second,
    ) =~= deployed(storage, account, contract_name, second));
}

/// Deploying the same code under the same account and name again changes
/// nothing.
pub proof fn lemma_deploy_is_idempotent(
    storage: Map<Seq<u8>, Seq<u8>>,
    account: Seq<u8>,
    contract_name: Seq<char>,
    code: Seq<u8>,
)
    ensures
        deployed(deployed(storage, account, contract_name, code), account, contract_name, code)
            == deployed(storage, account, contract_name, code),
{
    lemma_redeploy_replaces_code(storage, account, contract_name, code, code);
}

/// A deployment touches no other storage key than the contract's address.
pub proof fn lemma_deploy_keeps_other_cells(
    storage: Map<Seq<u8>, Seq<u8>>,
    account: Seq<u8>,
    contract_name: Seq<char>,
    code: Seq<u8>,
    key: Seq<u8>,
)
    requires
        key != contract_address(account, contract_name),
    ensures
        stored_bytes(deployed(storage, account, contract_name, code), key) == stored_bytes(
            storage,
            key,
        ),
{
}

/// Two contracts of accounts of the proper width share an address only if
/// they are the same account's contract of the same name.
pub proof fn lemma_contract_address_is_injective(
    account: Seq<u8>,
    contract_name: Seq<char>,
    other_account: Seq<u8>,
    other_name: Seq<char>,
)
    requires
        account.len() == ACCOUNT_BYTE_COUNT,
        other_account.len() == ACCOUNT_BYTE_COUNT,
        contract_address(account, contract_name) == contract_address(other_account, other_name),
    ensures
        account == other_account,
        contract_name == other_name,
{
    let address = contract_address(account, contract_name);
    let split = ACCOUNT_BYTE_COUNT as int;
    assert(address.subrange(0, split) =~= account);
    assert(address.subrange(0, split) =~= other_account);
    assert(address.subrange(split, address.len() as int) =~= encode_utf8(contract_name));
    assert(address.subrange(split, address.len() as int) =~= encode_utf8(other_name));
    vstd::utf8::encode_utf8_decode_utf8(contract_name);
    vstd::utf8::encode_utf8_decode_utf8(other_name);
}

} // verus!
