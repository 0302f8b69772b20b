//! Why a request was rejected.

use vstd::prelude::*;

verus! {

/// The reasons for which a transfer or an offer instruction is rejected. A
/// rejected request changes nothing.
#[derive(Clone, Copy, Debug, PartialEq, Eq, Structural)]
pub enum SwapError {
    /// An amount that must be positive is zero.
    InvalidAmount,
    /// The asset offered and the asset wanted are the same.
    SameAsset,
    /// The authority does not control the account that is debited.
    AuthorityMismatch,
    /// The asset is not registered, or not with the decimals named.
    AssetMismatch,
    /// The account that is debited holds less than the amount.
    InsufficientBalance,
    /// No funded offer lives at the address.
    OfferNotFound,
    /// The caller is not the maker recorded in the offer.
    NotMaker,
}

} // verus!
