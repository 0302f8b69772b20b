//! A two-party, two-asset escrow: a maker locks tokens of one asset in a
//! program-controlled vault and names the amount of another asset they want
//! in return; a taker settles the offer atomically, or the maker reclaims
//! the locked tokens.

pub mod address;
pub mod error;
pub mod escrow;
pub mod instructions;
pub mod laws;
pub mod state;

pub use crate::address::Address;
pub use crate::error::SwapError;
pub use crate::escrow::Escrow;
pub use crate::instructions::shared::{check_transfer, transfer_tokens, Authority};
pub use crate::state::ledger::{Ledger, Mint, MintState, Owner};
pub use crate::state::offer::{find_offer_address, Offer};
