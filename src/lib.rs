//! Instruction dispatch and account validation for an on-chain program.
//!
//! The host hands the program its own identifier, an ordered list of
//! accounts and an opaque payload. The payload is decoded into an
//! [`Instruction`], the accounts are checked against that instruction's
//! requirements, and only then does the matching handler touch account data.
pub mod account;
pub mod error;
pub mod instruction;
pub mod laws;
pub mod processor;

pub use account::{AccountRef, AccountRequirement};
pub use error::DispatchError;
pub use instruction::Instruction;
pub use processor::process_instruction;
