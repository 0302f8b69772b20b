//! What holds of the instructions taken together, proved over the states
//! and transitions that their contracts speak of.

use crate::address::Address;
use crate::error::SwapError;
use crate::escrow::EscrowView;
use crate::instructions::shared::transfer_check;
use crate::state::ledger::{LedgerView, Mint, Owner};
use crate::state::offer::{offer_slot, Offer};
use vstd::prelude::*;

verus! {

/// A transfer takes the amount from one account and gives it to the other:
/// the account of `from` holds the amount less, the account of `to` the
/// amount more, and every other account, and every asset's record, is as it
/// was. A transfer from an account to itself changes nothing.
pub proof fn law_transfer_moves_the_amount(
    ledger: LedgerView,
    from: Owner,
    to: Owner,
    mint: Address,
    amount: nat,
    owner: Owner,
    asset: Address,
)
    requires
        ledger.wf(),
        ledger.balance(from, mint) >= amount,
    ensures
        ({
            let after = ledger.moved(from, to, mint, amount);
            &&& after.wf()
            &&& after.mints == ledger.mints
            &&& from != to ==> after.balance(from, mint) == ledger.balance(from, mint) - amount
            &&& from != to ==> after.balance(to, mint) == ledger.balance(to, mint) + amount
            &&& from == to ==> after == ledger
            &&& (asset != mint || (owner != from && owner != to)) ==> after.balance(owner, asset)
                == ledger.balance(owner, asset)
        }),
{
    let after = ledger.moved(from, to, mint, amount);
    if from == to {
        assert(after.balances =~= ledger.balances);
    }
    if amount > 0 {
        assert(ledger.balance(from, mint) > 0);
    }
}

/// A transfer of a positive amount that is asked for by anyone but the one
/// who controls the account it leaves is rejected with `AuthorityMismatch`,
/// whatever the asset and the balance.
pub proof fn law_transfer_needs_the_owner(
    ledger: LedgerView,
    acting: Option<Owner>,
    from: Owner,
    amount: nat,
    mint: Mint,
)
    requires
        amount > 0,
        acting != Some(from),
    ensures
        transfer_check(ledger, acting, from, amount, mint) == Err::<(), SwapError>(
            SwapError::AuthorityMismatch,
        ),
{
}

/// A rejected instruction changes nothing: where MakeOffer, TakeOffer or
/// RefundOffer returns an error, or MakeOffer finds no free address, the
/// state after it is the state before it.
pub proof fn law_rejection_changes_nothing(
    s: EscrowView,
    caller: Address,
    address: Address,
    bump: u8,
    id: u64,
    token_mint_a: Address,
    token_mint_b: Address,
    token_a_offered_amount: u64,
    token_b_wanted_amount: u64,
)
    ensures
        ({
            let (r, next) = s.make_offer(
                caller,
                id,
                token_mint_a,
                token_mint_b,
                token_a_offered_amount,
                token_b_wanted_amount,
            );
            !(r matches Some(Ok(_))) ==> next == s
        }),
        ({
            let (r, next) = s.make_offer_at(
                address,
                bump,
                caller,
                id,
                token_mint_a,
                token_mint_b,
                token_a_offered_amount,
                token_b_wanted_amount,
            );
            r is Err ==> next == s
        }),
        s.take_offer(caller, address).0 is Err ==> s.take_offer(caller, address).1 == s,
        s.refund_offer(caller, address).0 is Err ==> s.refund_offer(caller, address).1 == s,
{
}

/// MakeOffer of positive amounts of two different assets, by a maker who
/// holds the offered amount of a registered asset, succeeds wherever an
/// address can be derived for the offer and no offer lives at it: the offer
/// is recorded there with the fields given, its vault holds exactly the
/// offered amount, and the maker holds that much less.
pub proof fn law_make_offer_funds_the_vault(
    s: EscrowView,
    maker: Address,
    id: u64,
    token_mint_a: Address,
    token_mint_b: Address,
    token_a_offered_amount: u64,
    token_b_wanted_amount: u64,
)
    requires
        s.wf(),
        token_a_offered_amount > 0,
        token_b_wanted_amount > 0,
        token_mint_a != token_mint_b,
        s.ledger.mints.contains_key(token_mint_a),
        s.ledger.balance(Owner::User(maker), token_mint_a) >= token_a_offered_amount,
    ensures
        ({
            let (made, funded) = s.make_offer(
                maker,
                id,
                token_mint_a,
                token_mint_b,
                token_a_offered_amount,
                token_b_wanted_amount,
            );
            match offer_slot(s.program_id, maker, id) {
                Some((address, bump)) if !s.offers.contains_key(address) => {
                    &&& made == Some(Ok::<Address, SwapError>(address))
                    &&& funded.wf()
                    &&& funded.offers.contains_key(address)
                    &&& funded.offers[address] == (Offer {
                        id,
                        maker,
                        token_mint_a,
                        token_mint_b,
                        token_b_wanted_amount,
                        bump,
                    })
                    &&& funded.vault_balance(address) == token_a_offered_amount
                    &&& funded.ledger.balance(Owner::User(maker), token_mint_a)
                        == s.ledger.balance(Owner::User(maker), token_mint_a)
                        - token_a_offered_amount
                },
                _ => made is None && funded == s,
            }
        }),
{
    if let Some((address, bump)) = offer_slot(s.program_id, maker, id) {
        if !s.offers.contains_key(address) {
            assert(s.ledger.balance(Owner::Program(address), token_mint_a) == 0);
            s.lemma_make_offer_at_wf(
                address,
                bump,
                maker,
                id,
                token_mint_a,
                token_mint_b,
                token_a_offered_amount,
                token_b_wanted_amount,
            );
        }
    }
}

/// MakeOffer followed at once by TakeOffer by another party who holds the
/// wanted amount swaps the two amounts: the maker ends with the wanted
/// amount more of the wanted asset and the offered amount less of the
/// offered asset, the taker with the offered amount more of the offered
/// asset and the wanted amount less of the wanted asset, and neither the
/// offer nor anything in its vault is left.
pub proof fn law_make_then_take(
    s: EscrowView,
    maker: Address,
    taker: Address,
    id: u64,
    token_mint_a: Address,
    token_mint_b: Address,
    token_a_offered_amount: u64,
    token_b_wanted_amount: u64,
)
    requires
        s.wf(),
        maker != taker,
        s.ledger.balance(Owner::User(taker), token_mint_b) >= token_b_wanted_amount,
    ensures
        ({
            let (made, funded) = s.make_offer(
                maker,
                id,
                token_mint_a,
                token_mint_b,
                token_a_offered_amount,
                token_b_wanted_amount,
            );
            made matches Some(Ok(address)) ==> {
                let (taken, closed) = funded.take_offer(taker, address);
                &&& taken is Ok
                &&& closed.wf()
                &&& closed.ledger.balance(Owner::User(maker), token_mint_b) == s.ledger.balance(
                    Owner::User(maker),
                    token_mint_b,
                ) + token_b_wanted_amount
                &&& closed.ledger.balance(Owner::User(taker), token_mint_a) == s.ledger.balance(
                    Owner::User(taker),
                    token_mint_a,
                ) + token_a_offered_amount
                &&& closed.ledger.balance(Owner::User(maker), token_mint_a) == s.ledger.balance(
                    Owner::User(maker),
                    token_mint_a,
                ) - token_a_offered_amount
                &&& closed.ledger.balance(Owner::User(taker), token_mint_b) == s.ledger.balance(
                    Owner::User(taker),
                    token_mint_b,
                ) - token_b_wanted_amount
                &&& !closed.offers.contains_key(address)
                &&& forall|m: Address| closed.ledger.balance(Owner::Program(address), m) == 0
            }
        }),
{
    let (made, funded) = s.make_offer(
        maker,
        id,
        token_mint_a,
        token_mint_b,
        token_a_offered_amount,
        token_b_wanted_amount,
    );
    if let Some(Ok(address)) = made {
        assert(s.ledger.balance(Owner::Program(address), token_mint_a) == 0);
        assert(s.ledger.balance(Owner::User(taker), token_mint_b) > 0);
        let (taken, closed) = funded.take_offer(taker, address);
        assert(taken is Ok);
        assert forall|m: Address| closed.ledger.balance(Owner::Program(address), m) == 0 by {
            assert(s.ledger.balance(Owner::Program(address), m) == 0);
        }
        assert forall|a: Address, m: Address|
            (#[trigger] closed.ledger.balance(Owner::Program(a), m) > 0) <==> (
            closed.offers.contains_key(a) && closed.offers[a].token_mint_a == m) by {
            assert(s.ledger.balance(Owner::Program(a), m) > 0 <==> (s.offers.contains_key(a)
                && s.offers[a].token_mint_a == m));
        }
    }
}

/// MakeOffer followed at once by RefundOffer by the maker undoes the offer:
/// the refund succeeds and the state is the one before MakeOffer, so the
/// maker holds what they held and neither the offer nor its vault is left.
pub proof fn law_make_then_refund(
    s: EscrowView,
    maker: Address,
    id: u64,
    token_mint_a: Address,
    token_mint_b: Address,
    token_a_offered_amount: u64,
    token_b_wanted_amount: u64,
)
    requires
        s.wf(),
    ensures
        ({
            let (made, funded) = s.make_offer(
                maker,
                id,
                token_mint_a,
                token_mint_b,
                token_a_offered_amount,
                token_b_wanted_amount,
            );
            made matches Some(Ok(address)) ==> funded.refund_offer(maker, address) == (
                Ok::<(), SwapError>(()),
                s,
            )
        }),
{
    let (made, funded) = s.make_offer(
        maker,
        id,
        token_mint_a,
        token_mint_b,
        token_a_offered_amount,
        token_b_wanted_amount,
    );
    if let Some(Ok(address)) = made {
        assert(s.ledger.balance(Owner::Program(address), token_mint_a) == 0);
        let (refunded, closed) = funded.refund_offer(maker, address);
        assert(refunded is Ok);
        assert(closed.ledger.balances =~= s.ledger.balances);
        assert(closed.offers =~= s.offers);
    }
}

/// RefundOffer of a funded offer by its recorded maker, where the program
/// signs for the vault, gives the maker what the vault holds and closes the
/// offer and the vault.
pub proof fn law_refund_returns_vault(s: EscrowView, address: Address)
    requires
        s.wf(),
        s.offers.contains_key(address),
    ensures
        ({
            let offer = s.offers[address];
            let (refunded, closed) = s.refund_offer(offer.maker, address);
            if s.vault_signer(offer) == Some(Owner::Program(address)) {
                &&& refunded is Ok
                &&& closed.wf()
                &&& closed.ledger.balance(Owner::User(offer.maker), offer.token_mint_a)
                    == s.ledger.balance(Owner::User(offer.maker), offer.token_mint_a)
                    + s.vault_balance(address)
                &&& !closed.offers.contains_key(address)
                &&& forall|m: Address| closed.ledger.balance(Owner::Program(address), m) == 0
            } else {
                refunded == Err::<(), SwapError>(SwapError::AuthorityMismatch) && closed == s
            }
        }),
{
    let offer = s.offers[address];
    let (refunded, closed) = s.refund_offer(offer.maker, address);
    assert(s.ledger.balance(Owner::Program(address), offer.token_mint_a) > 0);
    if s.vault_signer(offer) == Some(Owner::Program(address)) {
        assert(refunded is Ok);
        assert forall|a: Address, m: Address|
            (#[trigger] closed.ledger.balance(Owner::Program(a), m) > 0) <==> (
            closed.offers.contains_key(a) && closed.offers[a].token_mint_a == m) by {
            assert(s.ledger.balance(Owner::Program(a), m) > 0 <==> (s.offers.contains_key(a)
                && s.offers[a].token_mint_a == m));
        }
        assert forall|m: Address| closed.ledger.balance(Owner::Program(address), m) == 0 by {
            assert(s.ledger.balance(Owner::Program(address), m) > 0 <==> (s.offers.contains_key(
                address,
            ) && s.offers[address].token_mint_a == m));
        }
    }
}

/// RefundOffer by anyone but the recorded maker fails with `NotMaker` and
/// leaves every balance and the offer as they were.
pub proof fn law_refund_by_another_party(s: EscrowView, caller: Address, address: Address)
    requires
        s.offers.contains_key(address),
        s.offers[address].maker != caller,
    ensures
        s.refund_offer(caller, address) == (Err::<(), SwapError>(SwapError::NotMaker), s),
{
}

/// TakeOffer and RefundOffer of an offer for whose vault the program cannot
/// sign are rejected and leave every balance and the offer as they were.
pub proof fn law_release_without_authority(s: EscrowView, caller: Address, address: Address)
    requires
        s.wf(),
        s.offers.contains_key(address),
    ensures
        s.vault_signer(s.offers[address]) != Some(Owner::Program(address)) ==> {
            &&& s.take_offer(caller, address).0 is Err
            &&& s.take_offer(caller, address).1 == s
            &&& s.refund_offer(caller, address).0 is Err
            &&& s.refund_offer(caller, address).1 == s
        },
{
    assert(s.ledger.balance(Owner::Program(address), s.offers[address].token_mint_a) > 0);
}

/// The offer at `address` and what its vault holds are the same in `next`
/// as in `s`.
pub open spec fn untouched(s: EscrowView, next: EscrowView, address: Address) -> bool {
    &&& next.offers.contains_key(address)
    &&& next.offers[address] == s.offers[address]
    &&& next.vault_balance(address) == s.vault_balance(address)
}

/// A funded offer and what its vault holds are changed by nothing but the
/// TakeOffer or RefundOffer that closes it: every instruction on another
/// address, and every MakeOffer, leaves them as they were.
pub proof fn law_vault_is_isolated(
    s: EscrowView,
    funded: Address,
    caller: Address,
    other: Address,
    bump: u8,
    id: u64,
    token_mint_a: Address,
    token_mint_b: Address,
    token_a_offered_amount: u64,
    token_b_wanted_amount: u64,
)
    requires
        s.wf(),
        s.offers.contains_key(funded),
        other != funded,
    ensures
        untouched(s, s.take_offer(caller, other).1, funded),
        untouched(s, s.refund_offer(caller, other).1, funded),
        untouched(
            s,
            s.make_offer_at(
                other,
                bump,
                caller,
                id,
                token_mint_a,
                token_mint_b,
                token_a_offered_amount,
                token_b_wanted_amount,
            ).1,
            funded,
        ),
        untouched(
            s,
            s.make_offer(
                caller,
                id,
                token_mint_a,
                token_mint_b,
                token_a_offered_amount,
                token_b_wanted_amount,
            ).1,
            funded,
        ),
{
}

/// Every instruction leads from a well-formed state to a well-formed state:
/// after it, as before, a vault holds tokens exactly where a funded offer
/// lives, and every offer gives one asset for a positive amount of another.
pub proof fn law_steps_preserve_wf(
    s: EscrowView,
    caller: Address,
    address: Address,
    bump: u8,
    id: u64,
    token_mint_a: Address,
    token_mint_b: Address,
    token_a_offered_amount: u64,
    token_b_wanted_amount: u64,
)
    requires
        s.wf(),
    ensures
        s.take_offer(caller, address).1.wf(),
        s.refund_offer(caller, address).1.wf(),
        !s.offers.contains_key(address) ==> s.make_offer_at(
            address,
            bump,
            caller,
            id,
            token_mint_a,
            token_mint_b,
            token_a_offered_amount,
            token_b_wanted_amount,
        ).1.wf(),
        s.make_offer(
            caller,
            id,
            token_mint_a,
            token_mint_b,
            token_a_offered_amount,
            token_b_wanted_amount,
        ).1.wf(),
{
    s.lemma_take_offer_wf(caller, address);
    s.lemma_refund_offer_wf(caller, address);
    if !s.offers.contains_key(address) {
        s.lemma_make_offer_at_wf(
            address,
            bump,
            caller,
            id,
            token_mint_a,
            token_mint_b,
            token_a_offered_amount,
            token_b_wanted_amount,
        );
    }
    if let Some((at, found_bump)) = offer_slot(s.program_id, caller, id) {
        if !s.offers.contains_key(at) {
            s.lemma_make_offer_at_wf(
                at,
                found_bump,
                caller,
                id,
                token_mint_a,
                token_mint_b,
                token_a_offered_amount,
                token_b_wanted_amount,
            );
        }
    }
}

/// MakeOffer of a zero amount, offered or wanted, fails with
/// `InvalidAmount` and creates neither offer nor vault.
pub proof fn law_zero_amount_rejected(
    s: EscrowView,
    maker: Address,
    id: u64,
    token_mint_a: Address,
    token_mint_b: Address,
    token_a_offered_amount: u64,
    token_b_wanted_amount: u64,
)
    requires
        token_a_offered_amount == 0 || token_b_wanted_amount == 0,
    ensures
        s.make_offer(
            maker,
            id,
            token_mint_a,
            token_mint_b,
            token_a_offered_amount,
            token_b_wanted_amount,
        ) == (Some(Err::<Address, SwapError>(SwapError::InvalidAmount)), s),
{
}

/// MakeOffer of positive amounts of one and the same asset fails with
/// `SameAsset` and creates neither offer nor vault.
pub proof fn law_same_asset_rejected(
    s: EscrowView,
    maker: Address,
    id: u64,
    token_mint: Address,
    token_a_offered_amount: u64,
    token_b_wanted_amount: u64,
)
    requires
        token_a_offered_amount > 0,
        token_b_wanted_amount > 0,
    ensures
        s.make_offer(
            maker,
            id,
            token_mint,
            token_mint,
            token_a_offered_amount,
            token_b_wanted_amount,
        ) == (Some(Err::<Address, SwapError>(SwapError::SameAsset)), s),
{
}

/// An offer is taken once: after a TakeOffer that succeeded, TakeOffer of
/// the same offer by anyone fails with `OfferNotFound`.
pub proof fn law_take_twice(s: EscrowView, taker: Address, again: Address, address: Address)
    ensures
        ({
            let (taken, closed) = s.take_offer(taker, address);
            taken is Ok ==> closed.take_offer(again, address) == (
                Err::<(), SwapError>(SwapError::OfferNotFound),
                closed,
            )
        }),
{
}

/// A closed offer stays closed: after a TakeOffer or a RefundOffer that
/// succeeded, RefundOffer of the same offer fails with `OfferNotFound`.
pub proof fn law_closed_offer_is_gone(
    s: EscrowView,
    caller: Address,
    again: Address,
    address: Address,
)
    ensures
        ({
            let (taken, closed) = s.take_offer(caller, address);
            taken is Ok ==> closed.refund_offer(again, address).0 == Err::<(), SwapError>(
                SwapError::OfferNotFound,
            )
        }),
        ({
            let (refunded, closed) = s.refund_offer(caller, address);
            refunded is Ok ==> {
                &&& closed.refund_offer(again, address).0 == Err::<(), SwapError>(
                    SwapError::OfferNotFound,
                )
                &&& closed.take_offer(again, address).0 == Err::<(), SwapError>(
                    SwapError::OfferNotFound,
                )
            }
        }),
{
}

} // verus!
