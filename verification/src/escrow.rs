//! The offer state machine: an offer is absent, then funded, then closed by
//! the taker who settles it or by the maker who takes the tokens back.

use crate::address::Address;
use crate::error::SwapError;
use crate::instructions::shared::{
    check_transfer, program_owner, transfer_check, transfer_tokens, Authority,
};
use crate::state::ledger::{Ledger, LedgerView, Mint, Owner};
use crate::state::offer::{find_offer_address, offer_signer_seeds, offer_slot, Offer};
use crate::state::registry::{Key, Registry};
use vstd::prelude::*;

verus! {

/// The state of the program as contracts see it: the ledger and the funded
/// offers, each under its address.
pub struct EscrowView {
    pub program_id: Address,
    pub ledger: LedgerView,
    pub offers: Map<Address, Offer>,
}

impl EscrowView {
    /// What holds of every state: the program holds tokens for an address
    /// exactly where a funded offer lives there, and then of the asset that
    /// the offer gives; every offer gives one asset for a positive amount of
    /// another.
    pub open spec fn wf(self) -> bool {
        &&& self.ledger.wf()
        &&& forall|a: Address| #[trigger]
            self.offers.contains_key(a) ==> self.offers[a].valid()
        &&& forall|a: Address, m: Address|
            (#[trigger] self.ledger.balance(Owner::Program(a), m) > 0) <==> (
            self.offers.contains_key(a) && self.offers[a].token_mint_a == m)
    }

    /// What the vault of the offer at `address` holds.
    pub open spec fn vault_balance(self, address: Address) -> nat {
        self.ledger.balance(Owner::Program(address), self.offers[address].token_mint_a)
    }

    /// The owner that the program acts as when it signs for `offer`.
    pub open spec fn vault_signer(self, offer: Offer) -> Option<Owner> {
        program_owner(offer_signer_seeds(offer.maker, offer.id, offer.bump), self.program_id)
    }

    /// The outcome of releasing the vault of the offer at `address` to
    /// `to`: the error of the transfer, or the ledger after it.
    pub open spec fn release(self, ledger: LedgerView, address: Address, to: Owner) -> Result<
        LedgerView,
        SwapError,
    > {
        let offer = self.offers[address];
        let vault = Owner::Program(address);
        let locked = ledger.balance(vault, offer.token_mint_a);
        match transfer_check(
            ledger,
            self.vault_signer(offer),
            vault,
            locked,
            ledger.canonical(offer.token_mint_a),
        ) {
            Ok(_) => Ok(ledger.moved(vault, to, offer.token_mint_a, locked)),
            Err(e) => Err(e),
        }
    }

    /// MakeOffer at a given address: the result, and the state after it.
    pub open spec fn make_offer_at(
        self,
        address: Address,
        bump: u8,
        maker: Address,
        id: u64,
        token_mint_a: Address,
        token_mint_b: Address,
        token_a_offered_amount: u64,
        token_b_wanted_amount: u64,
    ) -> (Result<(), SwapError>, EscrowView) {
        if token_a_offered_amount == 0 || token_b_wanted_amount == 0 {
            (Err(SwapError::InvalidAmount), self)
        } else if token_mint_a == token_mint_b {
            (Err(SwapError::SameAsset), self)
        } else {
            match transfer_check(
                self.ledger,
                Some(Owner::User(maker)),
                Owner::User(maker),
                token_a_offered_amount as nat,
                self.ledger.canonical(token_mint_a),
            ) {
                Err(e) => (Err(e), self),
                Ok(_) => (
                    Ok(()),
                    EscrowView {
                        program_id: self.program_id,
                        ledger: self.ledger.moved(
                            Owner::User(maker),
                            Owner::Program(address),
                            token_mint_a,
                            token_a_offered_amount as nat,
                        ),
                        offers: self.offers.insert(
                            address,
                            Offer {
                                id,
                                maker,
                                token_mint_a,
                                token_mint_b,
                                token_b_wanted_amount,
                                bump,
                            },
                        ),
                    },
                ),
            }
        }
    }

    /// MakeOffer: the result, and the state after it. The result is `None`
    /// where no address can be derived for the offer or an offer lives at
    /// it already.
    pub open spec fn make_offer(
        self,
        maker: Address,
        id: u64,
        token_mint_a: Address,
        token_mint_b: Address,
        token_a_offered_amount: u64,
        token_b_wanted_amount: u64,
    ) -> (Option<Result<Address, SwapError>>, EscrowView) {
        if token_a_offered_amount == 0 || token_b_wanted_amount == 0 {
            (Some(Err(SwapError::InvalidAmount)), self)
        } else if token_mint_a == token_mint_b {
            (Some(Err(SwapError::SameAsset)), self)
        } else {
            match offer_slot(self.program_id, maker, id) {
                None => (None, self),
                Some((address, bump)) => if self.offers.contains_key(address) {
                    (None, self)
                } else {
                    let (made, next) = self.make_offer_at(
                        address,
                        bump,
                        maker,
                        id,
                        token_mint_a,
                        token_mint_b,
                        token_a_offered_amount,
                        token_b_wanted_amount,
                    );
                    match made {
                        Ok(_) => (Some(Ok(address)), next),
                        Err(e) => (Some(Err(e)), next),
                    }
                },
            }
        }
    }

    /// TakeOffer: the result, and the state after it.
    pub open spec fn take_offer(self, taker: Address, address: Address) -> (
        Result<(), SwapError>,
        EscrowView,
    ) {
        if !self.offers.contains_key(address) {
            (Err(SwapError::OfferNotFound), self)
        } else {
            let offer = self.offers[address];
            match transfer_check(
                self.ledger,
                Some(Owner::User(taker)),
                Owner::User(taker),
                offer.token_b_wanted_amount as nat,
                self.ledger.canonical(offer.token_mint_b),
            ) {
                Err(e) => (Err(e), self),
                Ok(_) => {
                    let paid = self.ledger.moved(
                        Owner::User(taker),
                        Owner::User(offer.maker),
                        offer.token_mint_b,
                        offer.token_b_wanted_amount as nat,
                    );
                    match self.release(paid, address, Owner::User(taker)) {
                        Err(e) => (Err(e), self),
                        Ok(ledger) => (
                            Ok(()),
                            EscrowView {
                                program_id: self.program_id,
                                ledger,
                                offers: self.offers.remove(address),
                            },
                        ),
                    }
                },
            }
        }
    }

    /// RefundOffer: the result, and the state after it.
    pub open spec fn refund_offer(self, maker: Address, address: Address) -> (
        Result<(), SwapError>,
        EscrowView,
    ) {
        if !self.offers.contains_key(address) {
            (Err(SwapError::OfferNotFound), self)
        } else if self.offers[address].maker != maker {
            (Err(SwapError::NotMaker), self)
        } else {
            match self.release(self.ledger, address, Owner::User(maker)) {
                Err(e) => (Err(e), self),
                Ok(ledger) => (
                    Ok(()),
                    EscrowView {
                        program_id: self.program_id,
                        ledger,
                        offers: self.offers.remove(address),
                    },
                ),
            }
        }
    }
}

impl EscrowView {
    /// A state with the same offers and the same vault balances as a
    /// well-formed one, over a well-formed ledger, is well-formed.
    pub proof fn lemma_same_vaults(self, next: EscrowView)
        requires
            self.wf(),
            next.ledger.wf(),
            next.offers == self.offers,
            forall|a: Address, m: Address| #[trigger]
                next.ledger.balance(Owner::Program(a), m) == self.ledger.balance(
                    Owner::Program(a),
                    m,
                ),
        ensures
            next.wf(),
    {
        assert forall|a: Address, m: Address|
            (#[trigger] next.ledger.balance(Owner::Program(a), m) > 0) <==> (
            next.offers.contains_key(a) && next.offers[a].token_mint_a == m) by {
            assert(self.ledger.balance(Owner::Program(a), m) > 0 <==> (self.offers.contains_key(a)
                && self.offers[a].token_mint_a == m));
        }
    }

    /// MakeOffer at a free address keeps the state well-formed.
    pub proof fn lemma_make_offer_at_wf(
        self,
        address: Address,
        bump: u8,
        maker: Address,
        id: u64,
        token_mint_a: Address,
        token_mint_b: Address,
        token_a_offered_amount: u64,
        token_b_wanted_amount: u64,
    )
        requires
            self.wf(),
            !self.offers.contains_key(address),
        ensures
            self.make_offer_at(
                address,
                bump,
                maker,
                id,
                token_mint_a,
                token_mint_b,
                token_a_offered_amount,
                token_b_wanted_amount,
            ).1.wf(),
    {
        let (made, next) = self.make_offer_at(
            address,
            bump,
            maker,
            id,
            token_mint_a,
            token_mint_b,
            token_a_offered_amount,
            token_b_wanted_amount,
        );
        if made is Ok {
            assert forall|a: Address, m: Address|
                (#[trigger] next.ledger.balance(Owner::Program(a), m) > 0) <==> (
                next.offers.contains_key(a) && next.offers[a].token_mint_a == m) by {
                assert(self.ledger.balance(Owner::Program(a), m) > 0 <==> (
                self.offers.contains_key(a) && self.offers[a].token_mint_a == m));
            }
        }
    }

    /// TakeOffer keeps the state well-formed.
    pub proof fn lemma_take_offer_wf(self, taker: Address, address: Address)
        requires
            self.wf(),
        ensures
            self.take_offer(taker, address).1.wf(),
    {
        let (taken, next) = self.take_offer(taker, address);
        if taken is Ok {
            assert forall|a: Address, m: Address|
                (#[trigger] next.ledger.balance(Owner::Program(a), m) > 0) <==> (
                next.offers.contains_key(a) && next.offers[a].token_mint_a == m) by {
                assert(self.ledger.balance(Owner::Program(a), m) > 0 <==> (
                self.offers.contains_key(a) && self.offers[a].token_mint_a == m));
            }
        }
    }

    /// RefundOffer keeps the state well-formed.
    pub proof fn lemma_refund_offer_wf(self, maker: Address, address: Address)
        requires
            self.wf(),
        ensures
            self.refund_offer(maker, address).1.wf(),
    {
        let (refunded, next) = self.refund_offer(maker, address);
        if refunded is Ok {
            assert forall|a: Address, m: Address|
                (#[trigger] next.ledger.balance(Owner::Program(a), m) > 0) <==> (
                next.offers.contains_key(a) && next.offers[a].token_mint_a == m) by {
                assert(self.ledger.balance(Owner::Program(a), m) > 0 <==> (
                self.offers.contains_key(a) && self.offers[a].token_mint_a == m));
            }
        }
    }
}

/// The program's state: the token ledger and the funded offers.
pub struct Escrow {
    program_id: Address,
    ledger: Ledger,
    offers: Registry<Address, Offer>,
}

impl View for Escrow {
    type V = EscrowView;

    closed spec fn view(&self) -> EscrowView {
        EscrowView { program_id: self.program_id, ledger: self.ledger@, offers: self.offers@ }
    }
}

impl Escrow {
    pub closed spec fn wf(&self) -> bool {
        &&& self.ledger.wf()
        &&& self.offers.wf()
        &&& self@.wf()
    }

    /// A well-formed state has a well-formed view.
    pub proof fn lemma_view_wf(&self)
        requires
            self.wf(),
        ensures
            self@.wf(),
    {
    }

    /// The state of the program at `program_id` with an empty ledger and no
    /// offer.
    pub fn new(program_id: Address) -> (r: Escrow)
        ensures
            r.wf(),
            r@ == (EscrowView {
                program_id,
                ledger: LedgerView::empty(),
                offers: Map::<Address, Offer>::empty(),
            }),
    {
        let ledger = Ledger::new();
        proof {
            ledger.lemma_view_wf();
        }
        Escrow { program_id, ledger, offers: Registry::new() }
    }

    pub fn program_id(&self) -> (r: Address)
        ensures
            r == self@.program_id,
    {
        self.program_id
    }

    /// The token ledger, to read balances from.
    pub fn ledger(&self) -> (r: &Ledger)
        requires
            self.wf(),
        ensures
            r.wf(),
            r@ == self@.ledger,
    {
        &self.ledger
    }

    /// The funded offer at `address`, where there is one.
    pub fn offer(&self, address: &Address) -> (r: Option<Offer>)
        requires
            self.wf(),
        ensures
            r == (if self@.offers.contains_key(*address) {
                Some(self@.offers[*address])
            } else {
                None
            }),
    {
        self.offers.get(address)
    }

    /// Registers an asset with the ledger. Returns whether it did: an
    /// address is registered once.
    pub fn register_mint(&mut self, mint: Mint) -> (r: bool)
        requires
            old(self).wf(),
        ensures
            final(self).wf(),
            r == !old(self)@.ledger.mints.contains_key(mint.address),
            final(self)@ == (if r {
                EscrowView { ledger: old(self)@.ledger.with_mint(mint), ..old(self)@ }
            } else {
                old(self)@
            }),
    {
        let r = self.ledger.register_mint(mint);
        proof {
            self.ledger.lemma_view_wf();
            old(self)@.lemma_same_vaults(self@);
        }
        r
    }

    /// Issues `amount` new tokens of `mint` to the user `owner`. Returns
    /// whether it did: the asset must be registered and its supply must stay
    /// within `u64`.
    pub fn mint_to(&mut self, owner: &Address, mint: &Address, amount: u64) -> (r: bool)
        requires
            old(self).wf(),
        ensures
            final(self).wf(),
            r == (old(self)@.ledger.mints.contains_key(*mint) && old(
                self,
            )@.ledger.mints[*mint].supply + amount <= u64::MAX),
            final(self)@ == (if r {
                EscrowView {
                    ledger: old(self)@.ledger.minted(Owner::User(*owner), *mint, amount as nat),
                    ..old(self)@
                }
            } else {
                old(self)@
            }),
    {
        let r = self.ledger.mint_to(&Owner::User(*owner), mint, amount);
        proof {
            self.ledger.lemma_view_wf();
            old(self)@.lemma_same_vaults(self@);
        }
        r
    }

    /// MakeOffer at an address that the caller has derived: records the
    /// offer there and locks the offered tokens in its vault.
    pub fn make_offer_at(
        &mut self,
        address: Address,
        bump: u8,
        maker: &Address,
        id: u64,
        token_mint_a: &Address,
        token_mint_b: &Address,
        token_a_offered_amount: u64,
        token_b_wanted_amount: u64,
    ) -> (r: Result<(), SwapError>)
        requires
            old(self).wf(),
            !old(self)@.offers.contains_key(address),
        ensures
            final(self).wf(),
            r == old(self)@.make_offer_at(
                address,
                bump,
                *maker,
                id,
                *token_mint_a,
                *token_mint_b,
                token_a_offered_amount,
                token_b_wanted_amount,
            ).0,
            final(self)@ == old(self)@.make_offer_at(
                address,
                bump,
                *maker,
                id,
                *token_mint_a,
                *token_mint_b,
                token_a_offered_amount,
                token_b_wanted_amount,
            ).1,
    {
        if token_a_offered_amount == 0 || token_b_wanted_amount == 0 {
            return Err(SwapError::InvalidAmount);
        }
        if token_mint_a.same(token_mint_b) {
            return Err(SwapError::SameAsset);
        }
        let mint = self.ledger.canonical(token_mint_a);
        let from = Owner::User(*maker);
        let vault = Owner::Program(address);
        let authority = Authority::UserKey(*maker);
        match transfer_tokens(
            &mut self.ledger,
            &from,
            &vault,
            &token_a_offered_amount,
            &mint,
            &authority,
        ) {
            Err(e) => Err(e),
            Ok(()) => {
                let offer = Offer {
                    id,
                    maker: *maker,
                    token_mint_a: *token_mint_a,
                    token_mint_b: *token_mint_b,
                    token_b_wanted_amount,
                    bump,
                };
                self.offers.push_new(address, offer);
                proof {
                    old(self)@.lemma_make_offer_at_wf(
                        address,
                        bump,
                        *maker,
                        id,
                        *token_mint_a,
                        *token_mint_b,
                        token_a_offered_amount,
                        token_b_wanted_amount,
                    );
                }
                Ok(())
            },
        }
    }

    /// MakeOffer: derives the address of the offer that `maker` opens under
    /// `id`, records the offer there and locks `token_a_offered_amount` of
    /// `token_mint_a` in its vault. Returns the address of the funded
    /// offer, or `None` where no address can be derived or an offer lives at
    /// it already.
    pub fn make_offer(
        &mut self,
        maker: &Address,
        id: u64,
        token_mint_a: &Address,
        token_mint_b: &Address,
        token_a_offered_amount: u64,
        token_b_wanted_amount: u64,
    ) -> (r: Option<Result<Address, SwapError>>)
        requires
            old(self).wf(),
        ensures
            final(self).wf(),
            r == old(self)@.make_offer(
                *maker,
                id,
                *token_mint_a,
                *token_mint_b,
                token_a_offered_amount,
                token_b_wanted_amount,
            ).0,
            final(self)@ == old(self)@.make_offer(
                *maker,
                id,
                *token_mint_a,
                *token_mint_b,
                token_a_offered_amount,
                token_b_wanted_amount,
            ).1,
    {
        if token_a_offered_amount == 0 || token_b_wanted_amount == 0 {
            return Some(Err(SwapError::InvalidAmount));
        }
        if token_mint_a.same(token_mint_b) {
            return Some(Err(SwapError::SameAsset));
        }
        let (address, bump) = match find_offer_address(&self.program_id, maker, id) {
            Some(slot) => slot,
            None => { return None; },
        };
        match self.offers.find(&address) {
            Some(_) => { return None; },
            None => {},
        }
        match self.make_offer_at(
            address,
            bump,
            maker,
            id,
            token_mint_a,
            token_mint_b,
            token_a_offered_amount,
            token_b_wanted_amount,
        ) {
            Ok(()) => Some(Ok(address)),
            Err(e) => Some(Err(e)),
        }
    }

    /// The authority with which the program signs for the vault of `offer`.
    fn vault_authority(&self, offer: &Offer) -> (r: Authority)
        ensures
            r.acts_as() == self@.vault_signer(*offer),
    {
        Authority::ProgramDerived { program_id: self.program_id, seeds: offer.signer_seeds() }
    }

    /// TakeOffer: the taker pays the maker what the offer wants and receives
    /// what its vault holds; the offer and the vault are closed. Both
    /// transfers are made or neither is.
    pub fn take_offer(&mut self, taker: &Address, offer: &Address) -> (r: Result<(), SwapError>)
        requires
            old(self).wf(),
        ensures
            final(self).wf(),
            r == old(self)@.take_offer(*taker, *offer).0,
            final(self)@ == old(self)@.take_offer(*taker, *offer).1,
    {
        let slot = match self.offers.find(offer) {
            Some(slot) => slot,
            None => { return Err(SwapError::OfferNotFound); },
        };
        let record = self.offers.value_at(slot);
        let payer = Owner::User(*taker);
        let payee = Owner::User(record.maker);
        let vault = Owner::Program(*offer);
        let wanted = self.ledger.canonical(&record.token_mint_b);
        match check_transfer(
            &self.ledger,
            &Some(payer),
            &payer,
            record.token_b_wanted_amount,
            &wanted,
        ) {
            Err(e) => { return Err(e); },
            Ok(()) => {},
        }
        let signer = self.vault_authority(&record).acting_owner();
        let offered = self.ledger.canonical(&record.token_mint_a);
        let locked = self.ledger.balance(&vault, &record.token_mint_a);
        proof {
            let before = old(self)@;
            let paid = before.ledger.moved(
                payer,
                payee,
                record.token_mint_b,
                record.token_b_wanted_amount as nat,
            );
            assert(paid.balance(vault, record.token_mint_a) == locked);
            assert(paid.canonical(record.token_mint_a) == offered);
        }
        match check_transfer(&self.ledger, &signer, &vault, locked, &offered) {
            Err(e) => { return Err(e); },
            Ok(()) => {},
        }
        self.ledger.transfer(&payer, &payee, &record.token_mint_b, record.token_b_wanted_amount);
        self.ledger.transfer(&vault, &payer, &record.token_mint_a, locked);
        self.offers.remove_at(slot);
        proof {
            old(self)@.lemma_take_offer_wf(*taker, *offer);
        }
        Ok(())
    }

    /// RefundOffer: the maker takes back what the vault of their offer
    /// holds; the offer and the vault are closed.
    pub fn refund_offer(&mut self, maker: &Address, offer: &Address) -> (r: Result<(), SwapError>)
        requires
            old(self).wf(),
        ensures
            final(self).wf(),
            r == old(self)@.refund_offer(*maker, *offer).0,
            final(self)@ == old(self)@.refund_offer(*maker, *offer).1,
    {
        let slot = match self.offers.find(offer) {
            Some(slot) => slot,
            None => { return Err(SwapError::OfferNotFound); },
        };
        let record = self.offers.value_at(slot);
        if !record.maker.same(maker) {
            return Err(SwapError::NotMaker);
        }
        let vault = Owner::Program(*offer);
        let authority = self.vault_authority(&record);
        let offered = self.ledger.canonical(&record.token_mint_a);
        let locked = self.ledger.balance(&vault, &record.token_mint_a);
        match transfer_tokens(
            &mut self.ledger,
            &vault,
            &Owner::User(*maker),
            &locked,
            &offered,
            &authority,
        ) {
            Err(e) => { return Err(e); },
            Ok(()) => {},
        }
        self.offers.remove_at(slot);
        proof {
            old(self)@.lemma_refund_offer_wf(*maker, *offer);
        }
        Ok(())
    }
}

} // verus!
