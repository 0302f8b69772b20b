//! The offer record and the seeds from which its address is derived.

use crate::address::{
    address_of, find_program_address, found_program_address, lemma_address_of, program_address,
    Address,
};
use vstd::bytes::{spec_u64_to_le_bytes, u64_to_le_bytes};
use vstd::prelude::*;

verus! {

/// A pending swap: the maker has locked tokens of `token_mint_a` in the
/// offer's vault and wants `token_b_wanted_amount` of `token_mint_b` for
/// them. The locked amount is the vault's balance and is not recorded here.
#[derive(Clone, Copy, Debug, PartialEq, Eq)]
pub struct Offer {
    /// Chosen by the maker; with the maker's key it fixes the offer's address.
    pub id: u64,
    pub maker: Address,
    pub token_mint_a: Address,
    pub token_mint_b: Address,
    pub token_b_wanted_amount: u64,
    /// The bump seed with which the offer's address was derived.
    pub bump: u8,
}

/// The bytes of the word "offer", the first seed of every offer address.
pub open spec fn offer_tag() -> Seq<u8> {
    seq![111u8, 102u8, 102u8, 101u8, 114u8]
}

/// The seeds of the offer that `maker` opens under `id`: the tag, the
/// maker's key and the id in little-endian bytes.
pub open spec fn offer_seeds(maker: Address, id: u64) -> Seq<Seq<u8>> {
    seq![offer_tag(), maker@, spec_u64_to_le_bytes(id)]
}

/// The seeds with which the program signs for an offer: its seeds and its
/// bump seed.
pub open spec fn offer_signer_seeds(maker: Address, id: u64, bump: u8) -> Seq<Seq<u8>> {
    offer_seeds(maker, id).push(seq![bump])
}

/// The address and bump seed of the offer that `maker` opens under `id`
/// with the program at `program_id`: what the search for a program address
/// finds, where the address found is the one that the seeds and the bump
/// derive.
pub open spec fn offer_slot(program_id: Address, maker: Address, id: u64) -> Option<(Address, u8)> {
    match found_program_address(offer_seeds(maker, id), program_id@) {
        Some((bytes, bump)) => if program_address(
            offer_signer_seeds(maker, id, bump),
            program_id@,
        ) == Some(bytes) {
            Some((address_of(bytes), bump))
        } else {
            None
        },
        None => None,
    }
}

fn seeds_of(maker: &Address, id: u64) -> (r: Vec<Vec<u8>>)
    ensures
        r.deep_view() == offer_seeds(*maker, id),
{
    let tag: Vec<u8> = vec![111u8, 102u8, 102u8, 101u8, 114u8];
    let mut r: Vec<Vec<u8>> = Vec::new();
    r.push(tag);
    r.push(maker.to_vec());
    r.push(u64_to_le_bytes(id));
    assert(r.deep_view() =~~= offer_seeds(*maker, id));
    r
}

/// Finds the address and the bump seed of the offer that `maker` opens
/// under `id` with the program at `program_id`.
pub fn find_offer_address(program_id: &Address, maker: &Address, id: u64) -> (r: Option<
    (Address, u8),
>)
    ensures
        r == offer_slot(*program_id, *maker, id),
{
    let seeds = seeds_of(maker, id);
    let found = find_program_address(&seeds, program_id);
    proof {
        if let Some((a, _)) = found {
            lemma_address_of(a);
        }
    }
    found
}

impl Offer {
    /// The two rules that every recorded offer meets: the assets differ and
    /// a positive amount is wanted.
    pub open spec fn valid(&self) -> bool {
        self.token_mint_a != self.token_mint_b && self.token_b_wanted_amount > 0
    }

    /// The seeds with which the program signs for this offer's vault.
    pub fn signer_seeds(&self) -> (r: Vec<Vec<u8>>)
        ensures
            r.deep_view() == offer_signer_seeds(self.maker, self.id, self.bump),
    {
        let mut r = seeds_of(&self.maker, self.id);
        let bump: Vec<u8> = vec![self.bump];
        r.push(bump);
        assert(r.deep_view() =~~= offer_signer_seeds(self.maker, self.id, self.bump));
        r
    }
}

} // verus!
