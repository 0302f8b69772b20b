use anchor_lang::prelude::Pubkey;
use swap::{find_offer_address, Address, Escrow, Mint, Offer, Owner, SwapError};

fn key(n: u8) -> Address {
    Address { bytes: [n; 32] }
}

const PROGRAM: u8 = 9;
const MAKER: u8 = 1;
const TAKER: u8 = 2;
const A: u8 = 100;
const B: u8 = 101;

/// The maker holds `maker_a` of asset A, the taker `taker_b` of asset B.
fn escrow(maker_a: u64, taker_b: u64) -> Escrow {
    let mut escrow = Escrow::new(key(PROGRAM));
    assert!(escrow.register_mint(Mint { address: key(A), decimals: 6 }));
    assert!(escrow.register_mint(Mint { address: key(B), decimals: 9 }));
    assert!(escrow.mint_to(&key(MAKER), &key(A), maker_a));
    assert!(escrow.mint_to(&key(TAKER), &key(B), taker_b));
    escrow
}

fn held(escrow: &Escrow, owner: u8, mint: u8) -> u64 {
    escrow.ledger().balance(&Owner::User(key(owner)), &key(mint))
}

fn locked(escrow: &Escrow, address: &Address, mint: u8) -> u64 {
    escrow.ledger().balance(&Owner::Program(*address), &key(mint))
}

/// Maker's A, maker's B, taker's A, taker's B.
fn holdings(escrow: &Escrow) -> [u64; 4] {
    [held(escrow, MAKER, A), held(escrow, MAKER, B), held(escrow, TAKER, A), held(escrow, TAKER, B)]
}

fn make(escrow: &mut Escrow, id: u64, amount_a: u64, amount_b: u64) -> Address {
    match escrow.make_offer(&key(MAKER), id, &key(A), &key(B), amount_a, amount_b) {
        Some(Ok(address)) => address,
        other => panic!("offer not made: {:?}", other),
    }
}

#[test]
fn offer_address_is_the_program_address_of_maker_and_id() {
    let program = Pubkey::new_from_array([PROGRAM; 32]);
    let id: u64 = 0x0102_0304_0506_0708;
    let (address, bump) =
        Pubkey::find_program_address(&[b"offer", &[MAKER; 32], &id.to_le_bytes()], &program);
    assert_eq!(
        find_offer_address(&key(PROGRAM), &key(MAKER), id),
        Some((Address { bytes: address.to_bytes() }, bump))
    );
    assert_ne!(
        find_offer_address(&key(PROGRAM), &key(MAKER), id + 1),
        find_offer_address(&key(PROGRAM), &key(MAKER), id)
    );
    assert_ne!(
        find_offer_address(&key(PROGRAM), &key(TAKER), id),
        find_offer_address(&key(PROGRAM), &key(MAKER), id)
    );
}

#[test]
fn signer_seeds_are_tag_maker_id_and_bump() {
    let offer = Offer {
        id: 258,
        maker: key(MAKER),
        token_mint_a: key(A),
        token_mint_b: key(B),
        token_b_wanted_amount: 50,
        bump: 254,
    };
    assert_eq!(
        offer.signer_seeds(),
        vec![b"offer".to_vec(), vec![MAKER; 32], vec![2, 1, 0, 0, 0, 0, 0, 0], vec![254]]
    );
}

#[test]
fn new_escrow_has_no_offer() {
    let escrow = Escrow::new(key(PROGRAM));
    assert_eq!(escrow.program_id(), key(PROGRAM));
    assert_eq!(escrow.offer(&key(5)), None);
    assert_eq!(held(&escrow, MAKER, A), 0);
}

#[test]
fn make_offer_records_the_offer_and_funds_the_vault() {
    let mut escrow = escrow(100, 50);
    let address = make(&mut escrow, 7, 60, 50);
    let (derived, bump) = find_offer_address(&key(PROGRAM), &key(MAKER), 7).unwrap();
    assert_eq!(address, derived);
    assert_eq!(
        escrow.offer(&address),
        Some(Offer {
            id: 7,
            maker: key(MAKER),
            token_mint_a: key(A),
            token_mint_b: key(B),
            token_b_wanted_amount: 50,
            bump,
        })
    );
    assert_eq!(locked(&escrow, &address, A), 60);
    assert_eq!(holdings(&escrow), [40, 0, 0, 50]);
}

#[test]
fn maker_locks_100_wanting_50_and_taker_takes() {
    let mut escrow = escrow(100, 50);
    let address = make(&mut escrow, 1, 100, 50);
    assert_eq!(holdings(&escrow), [0, 0, 0, 50]);
    assert_eq!(escrow.take_offer(&key(TAKER), &address), Ok(()));
    assert_eq!(holdings(&escrow), [0, 50, 100, 0]);
    assert_eq!(escrow.offer(&address), None);
    assert_eq!(locked(&escrow, &address, A), 0);
}

#[test]
fn make_then_take_swaps_the_two_amounts() {
    let mut escrow = escrow(1_000, 900);
    let before = holdings(&escrow);
    let address = make(&mut escrow, 42, 250, 300);
    assert_eq!(escrow.take_offer(&key(TAKER), &address), Ok(()));
    let after = holdings(&escrow);
    assert_eq!(after[0], before[0] - 250);
    assert_eq!(after[1], before[1] + 300);
    assert_eq!(after[2], before[2] + 250);
    assert_eq!(after[3], before[3] - 300);
    assert_eq!(escrow.offer(&address), None);
    assert_eq!(locked(&escrow, &address, A), 0);
}

#[test]
fn make_then_refund_restores_the_maker() {
    let mut escrow = escrow(100, 50);
    let before = holdings(&escrow);
    let address = make(&mut escrow, 3, 100, 50);
    assert_eq!(held(&escrow, MAKER, A), 0);
    assert_eq!(escrow.refund_offer(&key(MAKER), &address), Ok(()));
    assert_eq!(holdings(&escrow), before);
    assert_eq!(escrow.offer(&address), None);
    assert_eq!(locked(&escrow, &address, A), 0);
}

#[test]
fn refund_by_another_party_is_not_maker() {
    let mut escrow = escrow(100, 50);
    let address = make(&mut escrow, 3, 100, 50);
    let offer = escrow.offer(&address);
    assert_eq!(escrow.refund_offer(&key(TAKER), &address), Err(SwapError::NotMaker));
    assert_eq!(holdings(&escrow), [0, 0, 0, 50]);
    assert_eq!(locked(&escrow, &address, A), 100);
    assert_eq!(escrow.offer(&address), offer);
}

#[test]
fn make_offer_of_zero_is_invalid_amount() {
    let mut escrow = escrow(100, 50);
    let (address, _) = find_offer_address(&key(PROGRAM), &key(MAKER), 1).unwrap();
    assert_eq!(
        escrow.make_offer(&key(MAKER), 1, &key(A), &key(B), 0, 50),
        Some(Err(SwapError::InvalidAmount))
    );
    assert_eq!(
        escrow.make_offer(&key(MAKER), 1, &key(A), &key(B), 100, 0),
        Some(Err(SwapError::InvalidAmount))
    );
    assert_eq!(
        escrow.make_offer(&key(MAKER), 1, &key(A), &key(A), 0, 0),
        Some(Err(SwapError::InvalidAmount))
    );
    assert_eq!(escrow.offer(&address), None);
    assert_eq!(locked(&escrow, &address, A), 0);
    assert_eq!(holdings(&escrow), [100, 0, 0, 50]);
}

#[test]
fn make_offer_of_one_asset_for_itself_is_same_asset() {
    let mut escrow = escrow(100, 50);
    let (address, _) = find_offer_address(&key(PROGRAM), &key(MAKER), 1).unwrap();
    assert_eq!(
        escrow.make_offer(&key(MAKER), 1, &key(A), &key(A), 100, 50),
        Some(Err(SwapError::SameAsset))
    );
    assert_eq!(escrow.offer(&address), None);
    assert_eq!(holdings(&escrow), [100, 0, 0, 50]);
}

#[test]
fn make_offer_of_more_than_held_is_insufficient_balance() {
    let mut escrow = escrow(100, 50);
    let (address, _) = find_offer_address(&key(PROGRAM), &key(MAKER), 1).unwrap();
    assert_eq!(
        escrow.make_offer(&key(MAKER), 1, &key(A), &key(B), 101, 50),
        Some(Err(SwapError::InsufficientBalance))
    );
    assert_eq!(escrow.offer(&address), None);
    assert_eq!(holdings(&escrow), [100, 0, 0, 50]);
}

#[test]
fn make_offer_of_unregistered_asset_is_asset_mismatch() {
    let mut escrow = escrow(100, 50);
    assert_eq!(
        escrow.make_offer(&key(MAKER), 1, &key(77), &key(B), 10, 50),
        Some(Err(SwapError::AssetMismatch))
    );
}

#[test]
fn make_offer_twice_under_one_id_finds_the_address_taken() {
    let mut escrow = escrow(100, 50);
    let address = make(&mut escrow, 5, 10, 50);
    assert_eq!(escrow.make_offer(&key(MAKER), 5, &key(A), &key(B), 10, 50), None);
    assert_eq!(locked(&escrow, &address, A), 10);
    assert_eq!(held(&escrow, MAKER, A), 90);
    // Another id is another offer.
    let second = make(&mut escrow, 6, 20, 1);
    assert_ne!(second, address);
    assert_eq!(locked(&escrow, &second, A), 20);
    assert_eq!(locked(&escrow, &address, A), 10);
    assert_eq!(held(&escrow, MAKER, A), 70);
    // Once closed, the address is free again.
    assert_eq!(escrow.refund_offer(&key(MAKER), &address), Ok(()));
    assert_eq!(make(&mut escrow, 5, 30, 2), address);
    assert_eq!(locked(&escrow, &address, A), 30);
}

#[test]
fn take_offer_twice_is_offer_not_found() {
    let mut escrow = escrow(100, 100);
    let address = make(&mut escrow, 1, 100, 50);
    assert_eq!(escrow.take_offer(&key(TAKER), &address), Ok(()));
    let after = holdings(&escrow);
    assert_eq!(escrow.take_offer(&key(TAKER), &address), Err(SwapError::OfferNotFound));
    assert_eq!(escrow.refund_offer(&key(MAKER), &address), Err(SwapError::OfferNotFound));
    assert_eq!(holdings(&escrow), after);
}

#[test]
fn take_and_refund_of_an_absent_offer_are_offer_not_found() {
    let mut escrow = escrow(100, 50);
    assert_eq!(escrow.take_offer(&key(TAKER), &key(5)), Err(SwapError::OfferNotFound));
    assert_eq!(escrow.refund_offer(&key(MAKER), &key(5)), Err(SwapError::OfferNotFound));
    assert_eq!(holdings(&escrow), [100, 0, 0, 50]);
}

#[test]
fn refund_after_refund_is_offer_not_found() {
    let mut escrow = escrow(100, 50);
    let address = make(&mut escrow, 1, 100, 50);
    assert_eq!(escrow.refund_offer(&key(MAKER), &address), Ok(()));
    assert_eq!(escrow.refund_offer(&key(MAKER), &address), Err(SwapError::OfferNotFound));
    assert_eq!(escrow.take_offer(&key(TAKER), &address), Err(SwapError::OfferNotFound));
    assert_eq!(holdings(&escrow), [100, 0, 0, 50]);
}

#[test]
fn take_offer_without_the_wanted_amount_is_insufficient_balance() {
    let mut escrow = escrow(100, 49);
    let address = make(&mut escrow, 1, 100, 50);
    let offer = escrow.offer(&address);
    assert_eq!(escrow.take_offer(&key(TAKER), &address), Err(SwapError::InsufficientBalance));
    assert_eq!(holdings(&escrow), [0, 0, 0, 49]);
    assert_eq!(locked(&escrow, &address, A), 100);
    assert_eq!(escrow.offer(&address), offer);
}

#[test]
fn take_offer_for_an_unregistered_asset_is_asset_mismatch() {
    let mut escrow = escrow(100, 50);
    let address = match escrow.make_offer(&key(MAKER), 1, &key(A), &key(77), 100, 50) {
        Some(Ok(address)) => address,
        other => panic!("offer not made: {:?}", other),
    };
    assert_eq!(escrow.take_offer(&key(TAKER), &address), Err(SwapError::AssetMismatch));
    assert_eq!(locked(&escrow, &address, A), 100);
    assert_eq!(escrow.refund_offer(&key(MAKER), &address), Ok(()));
    assert_eq!(held(&escrow, MAKER, A), 100);
}

#[test]
fn maker_may_take_their_own_offer() {
    let mut escrow = escrow(100, 0);
    assert!(escrow.mint_to(&key(MAKER), &key(B), 50));
    let address = make(&mut escrow, 1, 100, 50);
    assert_eq!(escrow.take_offer(&key(MAKER), &address), Ok(()));
    assert_eq!(held(&escrow, MAKER, A), 100);
    assert_eq!(held(&escrow, MAKER, B), 50);
    assert_eq!(escrow.offer(&address), None);
}

#[test]
fn offers_do_not_touch_each_other() {
    let mut escrow = escrow(100, 50);
    let first = make(&mut escrow, 1, 60, 20);
    let second = make(&mut escrow, 2, 40, 30);
    assert_eq!(escrow.take_offer(&key(TAKER), &second), Ok(()));
    assert_eq!(locked(&escrow, &first, A), 60);
    assert_eq!(escrow.offer(&first).map(|o| o.id), Some(1));
    assert_eq!(holdings(&escrow), [0, 30, 40, 20]);
    assert_eq!(escrow.take_offer(&key(TAKER), &first), Ok(()));
    assert_eq!(holdings(&escrow), [0, 50, 100, 0]);
}

#[test]
fn make_offer_at_a_derived_address_can_be_taken() {
    let mut escrow = escrow(100, 50);
    let (address, bump) = find_offer_address(&key(PROGRAM), &key(MAKER), 11).unwrap();
    assert_eq!(
        escrow.make_offer_at(address, bump, &key(MAKER), 11, &key(A), &key(B), 100, 50),
        Ok(())
    );
    assert_eq!(locked(&escrow, &address, A), 100);
    assert_eq!(escrow.take_offer(&key(TAKER), &address), Ok(()));
    assert_eq!(holdings(&escrow), [0, 50, 100, 0]);
}

#[test]
fn make_offer_at_checks_amounts_assets_and_balance() {
    let mut escrow = escrow(100, 50);
    let at = key(5);
    assert_eq!(
        escrow.make_offer_at(at, 255, &key(MAKER), 1, &key(A), &key(B), 0, 50),
        Err(SwapError::InvalidAmount)
    );
    assert_eq!(
        escrow.make_offer_at(at, 255, &key(MAKER), 1, &key(A), &key(B), 100, 0),
        Err(SwapError::InvalidAmount)
    );
    assert_eq!(
        escrow.make_offer_at(at, 255, &key(MAKER), 1, &key(B), &key(B), 100, 50),
        Err(SwapError::SameAsset)
    );
    assert_eq!(
        escrow.make_offer_at(at, 255, &key(MAKER), 1, &key(A), &key(B), 101, 50),
        Err(SwapError::InsufficientBalance)
    );
    assert_eq!(
        escrow.make_offer_at(at, 255, &key(MAKER), 1, &key(77), &key(B), 100, 50),
        Err(SwapError::AssetMismatch)
    );
    assert_eq!(escrow.offer(&at), None);
    assert_eq!(holdings(&escrow), [100, 0, 0, 50]);
}

#[test]
fn vault_at_an_address_the_program_cannot_sign_for_stays_locked() {
    let mut escrow = escrow(100, 50);
    // An address that the seeds of the offer do not derive.
    let at = key(5);
    assert_eq!(
        escrow.make_offer_at(at, 255, &key(MAKER), 1, &key(A), &key(B), 100, 50),
        Ok(())
    );
    assert_eq!(locked(&escrow, &at, A), 100);
    assert_eq!(escrow.take_offer(&key(TAKER), &at), Err(SwapError::AuthorityMismatch));
    assert_eq!(escrow.refund_offer(&key(MAKER), &at), Err(SwapError::AuthorityMismatch));
    assert_eq!(holdings(&escrow), [0, 0, 0, 50]);
    assert_eq!(locked(&escrow, &at, A), 100);
    assert!(escrow.offer(&at).is_some());
}

#[test]
fn a_wrong_bump_cannot_sign_for_the_vault() {
    let mut escrow = escrow(100, 50);
    let (address, bump) = find_offer_address(&key(PROGRAM), &key(MAKER), 11).unwrap();
    assert_eq!(
        escrow.make_offer_at(
            address,
            bump.wrapping_sub(1),
            &key(MAKER),
            11,
            &key(A),
            &key(B),
            100,
            50
        ),
        Ok(())
    );
    assert_eq!(escrow.refund_offer(&key(MAKER), &address), Err(SwapError::AuthorityMismatch));
    assert_eq!(locked(&escrow, &address, A), 100);
}

#[test]
fn escrow_mint_to_and_register_mint_report_what_they_did() {
    let mut escrow = escrow(100, 50);
    assert!(!escrow.register_mint(Mint { address: key(A), decimals: 1 }));
    assert!(!escrow.mint_to(&key(MAKER), &key(77), 1));
    assert!(!escrow.mint_to(&key(MAKER), &key(A), u64::MAX));
    assert!(escrow.mint_to(&key(MAKER), &key(A), u64::MAX - 100));
    assert_eq!(held(&escrow, MAKER, A), u64::MAX);
}
