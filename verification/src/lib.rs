//! Marshaling between sandboxed contract modules and their host: numbers and
//! buffers in linear memory, call results, and the contract registry.

pub mod blockchain;
pub mod bytes;
pub mod contract_registry;
pub mod error;
pub mod fake_blockchain;
pub mod memory;
pub mod numeric;
pub mod return_value;
pub mod value;
