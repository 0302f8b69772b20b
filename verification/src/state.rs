//! What the program stores: the keyed collections, the token ledger and the
//! offer record.

pub mod ledger;
pub mod offer;
pub(crate) mod registry;
