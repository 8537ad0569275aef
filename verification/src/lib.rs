//! SolDB: a table / key-value store kept in program-derived accounts.
//!
//! The library holds the program's logic: the wire format of its
//! instructions and account data, its error codes, and the processor that
//! turns an instruction and the accounts it names into the account changes
//! that carry it out.
pub mod accounts;
pub mod address;
pub mod codec;
pub mod error;
pub mod instructions;
pub mod processor;
pub mod state;
pub mod utils;
