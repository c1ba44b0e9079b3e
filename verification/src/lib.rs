//! A fungible-token ledger: mints, holdings and multisignature authorities,
//! and the instructions that move them from one state to the next.
//!
//! An instruction is a discriminator byte and a payload, and works on an
//! ordered list of accounts. Here the accounts of one invocation stand in a
//! [`Ledger`], each once, and an instruction lists them by their positions
//! in it, so that an account listed twice is one account. Every instruction
//! is a function from a ledger, a list of positions and a payload to either
//! the next ledger or an error: [`entrypoint::instruction_step`] says which,
//! and [`process_instruction`] does it. On an error the ledger is left as it was.
//!
//! - [`state`] has the records and the ledger, [`layout`] their bytes.
//! - [`instruction`] reads the payloads, [`ui_amount`] amounts written out.
//! - [`authority`] decides who may act.
//! - [`processor`] has the instructions, one function each, and the batch.
//! - [`supply`], [`frame`], [`lifecycle`] and [`laws`] state what holds of
//!   the instructions together, and prove it.

pub mod authority;
pub mod entrypoint;
pub mod error;
pub mod frame;
pub mod instruction;
pub mod laws;
pub mod layout;
pub mod lifecycle;
pub mod processor;
pub mod pubkey;
pub mod state;
pub mod supply;
pub mod ui_amount;

pub use crate::entrypoint::{process_instruction, process_remaining_instruction};
pub use crate::error::TokenError;
pub use crate::processor::get_account_data_size::process_get_account_data_size;
pub use crate::pubkey::Pubkey;
pub use crate::state::{Account, AccountData, AccountInfo, AccountState, Ledger, Mint, Multisig};
