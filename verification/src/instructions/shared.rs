//! The transfer primitive that every instruction moves tokens with.

use crate::address::{address_of, create_program_address, lemma_address_of, program_address, Address};
use crate::error::SwapError;
use crate::state::ledger::{Ledger, LedgerView, Mint, Owner};
use crate::state::registry::Key;
use vstd::prelude::*;

verus! {

/// Who asks for tokens to be moved out of an account: a user who signed
/// with their key, or the program, which signs with the seeds of an address
/// derived for it.
#[derive(Debug, PartialEq, Eq)]
pub enum Authority {
    UserKey(Address),
    ProgramDerived { program_id: Address, seeds: Vec<Vec<u8>> },
}

/// The owner that the program at `program_id` acts as when it signs with
/// `seeds`: the program address that they derive, where they derive one.
pub open spec fn program_owner(seeds: Seq<Seq<u8>>, program_id: Address) -> Option<Owner> {
    match program_address(seeds, program_id@) {
        Some(bytes) => Some(Owner::Program(address_of(bytes))),
        None => None,
    }
}

impl Authority {
    /// The owner whose accounts this authority controls, if any.
    pub open spec fn acts_as(&self) -> Option<Owner> {
        match *self {
            Authority::UserKey(key) => Some(Owner::User(key)),
            Authority::ProgramDerived { program_id, seeds } => program_owner(
                seeds.deep_view(),
                program_id,
            ),
        }
    }

    /// Resolves the authority to the owner it acts as, deriving the program
    /// address where the program signs.
    pub fn acting_owner(&self) -> (r: Option<Owner>)
        ensures
            r == self.acts_as(),
    {
        match self {
            Authority::UserKey(key) => Some(Owner::User(*key)),
            Authority::ProgramDerived { program_id, seeds } => {
                match create_program_address(seeds, program_id) {
                    Some(a) => {
                        proof {
                            lemma_address_of(a);
                        }
                        Some(Owner::Program(a))
                    },
                    None => None,
                }
            },
        }
    }
}

/// Whether `amount` of `mint` may leave the account of `from` at the request
/// of one who acts as `acting`, and if not, why. The checks are made in this
/// order: the amount is positive; the one who asks controls the account;
/// the asset is registered with the decimals named; the account holds the
/// amount.
pub open spec fn transfer_check(
    ledger: LedgerView,
    acting: Option<Owner>,
    from: Owner,
    amount: nat,
    mint: Mint,
) -> Result<(), SwapError> {
    if amount == 0 {
        Err(SwapError::InvalidAmount)
    } else if acting != Some(from) {
        Err(SwapError::AuthorityMismatch)
    } else if !ledger.agrees_with(mint) {
        Err(SwapError::AssetMismatch)
    } else if ledger.balance(from, mint.address) < amount {
        Err(SwapError::InsufficientBalance)
    } else {
        Ok(())
    }
}

/// Decides whether a transfer may go ahead, without making it.
pub fn check_transfer(
    ledger: &Ledger,
    acting: &Option<Owner>,
    from: &Owner,
    amount: u64,
    mint: &Mint,
) -> (r: Result<(), SwapError>)
    requires
        ledger.wf(),
    ensures
        r == transfer_check(ledger@, *acting, *from, amount as nat, *mint),
{
    if amount == 0 {
        return Err(SwapError::InvalidAmount);
    }
    let controls = match acting {
        Some(owner) => owner.same(from),
        None => false,
    };
    if !controls {
        return Err(SwapError::AuthorityMismatch);
    }
    let agrees = match ledger.mint_state(&mint.address) {
        Some(state) => state.decimals == mint.decimals,
        None => false,
    };
    if !agrees {
        return Err(SwapError::AssetMismatch);
    }
    if ledger.balance(from, &mint.address) < amount {
        return Err(SwapError::InsufficientBalance);
    }
    Ok(())
}

/// Moves `amount` tokens of `mint` from the account of `from` to the account
/// of `to`, at the request of `authority`. The transfer is made in full or
/// not at all: where it is rejected the ledger is unchanged.
pub fn transfer_tokens(
    ledger: &mut Ledger,
    from: &Owner,
    to: &Owner,
    amount: &u64,
    mint: &Mint,
    authority: &Authority,
) -> (r: Result<(), SwapError>)
    requires
        old(ledger).wf(),
    ensures
        final(ledger).wf(),
        r == transfer_check(old(ledger)@, authority.acts_as(), *from, *amount as nat, *mint),
        r is Ok ==> final(ledger)@ == old(ledger)@.moved(*from, *to, mint.address, *amount as nat),
        r is Err ==> final(ledger)@ == old(ledger)@,
{
    let acting = authority.acting_owner();
    match check_transfer(ledger, &acting, from, *amount, mint) {
        Ok(()) => {
            ledger.transfer(from, to, &mint.address, *amount);
            Ok(())
        },
        Err(e) => Err(e),
    }
}

} // verus!
