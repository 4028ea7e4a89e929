//! A token-transformation vault: a registry of transforms, each an atomic,
//! reversible exchange between a fixed basket of input tokens and a fixed
//! basket of output tokens, with an optional percentage fee on the way
//! forward.
//!
//! The library decides and plans; it moves nothing itself. Given an
//! instruction and the accounts that come with it, it validates them and
//! returns what is to be asked of the ledger and of the token program. Every
//! function is verified against a contract over mathematical models of its
//! data; the few calls into the ledger's and the token program's own crates
//! stand behind wrappers whose contracts are assumed, each marked as trusted
//! where it stands.
//!
//! - [`address`], [`basket`]: addresses in their order, and baskets kept in it.
//! - [`derivation`]: addresses derived for the program, and the proof of its
//!   authority over them.
//! - [`token`]: what the token program records in its accounts.
//! - [`codec`], [`state`]: the registry and the transforms, and their stored
//!   form.
//! - [`tokenitis_instruction`]: the two instructions, each with its
//!   validation and its plan, and their encoded form.
//! - [`instruction`], [`sdk`]: instructions for the ledger, as the plans'
//!   steps and as clients build them.
//! - [`ledger`]: balances under transfers, and the round trip of a swap.
//! - [`util`], [`errors`], [`account`]: the fee, the errors, and the values
//!   that plans are made of.

pub mod account;
pub mod address;
pub mod basket;
pub mod codec;
pub mod derivation;
pub mod errors;
pub mod instruction;
pub mod ledger;
pub mod sdk;
pub mod state;
pub mod token;
pub mod tokenitis_instruction;
pub mod util;
