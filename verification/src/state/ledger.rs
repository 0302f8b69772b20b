//! The token ledger: the registered assets and the balance that each owner
//! holds of each of them.

use crate::address::{same_bytes, Address};
use crate::state::registry::{index_of, lemma_as_map_at, Key, Registry};
use vstd::prelude::*;

verus! {

impl Key for Address {
    fn same(&self, other: &Address) -> (r: bool) {
        same_bytes(&self.bytes, &other.bytes)
    }
}

/// Who controls a token account: a user, by their key, or the program, by
/// an address derived for it.
#[derive(Clone, Copy, Debug, PartialEq, Eq)]
pub enum Owner {
    User(Address),
    Program(Address),
}

impl Key for Owner {
    fn same(&self, other: &Owner) -> (r: bool) {
        match (self, other) {
            (Owner::User(a), Owner::User(b)) => a.same(b),
            (Owner::Program(a), Owner::Program(b)) => a.same(b),
            _ => false,
        }
    }
}

/// A token account is known by its owner and its asset.
#[derive(Clone, Copy, Debug, PartialEq, Eq)]
pub struct AccountKey {
    pub owner: Owner,
    pub mint: Address,
}

impl Key for AccountKey {
    fn same(&self, other: &AccountKey) -> (r: bool) {
        self.owner.same(&other.owner) && self.mint.same(&other.mint)
    }
}

/// An asset as a caller names it: its address and the number of decimal
/// places the caller takes it to have.
#[derive(Clone, Copy, Debug, PartialEq, Eq)]
pub struct Mint {
    pub address: Address,
    pub decimals: u8,
}

/// What the ledger records of a registered asset.
#[derive(Clone, Copy, Debug, PartialEq, Eq)]
pub struct MintState {
    pub decimals: u8,
    pub supply: u64,
}

/// The ledger as contracts see it: the registered assets, and the balance
/// under every account key (zero where nothing is held).
pub struct LedgerView {
    pub mints: Map<Address, MintState>,
    pub balances: Map<AccountKey, nat>,
}

impl LedgerView {
    pub open spec fn empty() -> LedgerView {
        LedgerView { mints: Map::empty(), balances: Map::total(|k: AccountKey| 0nat) }
    }

    /// Every key has a balance, and only registered assets are held.
    pub open spec fn wf(self) -> bool {
        &&& forall|k: AccountKey| self.balances.contains_key(k)
        &&& forall|k: AccountKey| #[trigger]
            self.balances[k] > 0 ==> self.mints.contains_key(k.mint)
    }

    pub open spec fn balance(self, owner: Owner, mint: Address) -> nat {
        self.balances[AccountKey { owner, mint }]
    }

    /// `mint` is registered with the decimals that the caller names.
    pub open spec fn agrees_with(self, mint: Mint) -> bool {
        self.mints.contains_key(mint.address) && self.mints[mint.address].decimals
            == mint.decimals
    }

    /// The asset at `address` with the decimals that the ledger records for
    /// it (zero where it records none).
    pub open spec fn canonical(self, address: Address) -> Mint {
        Mint {
            address,
            decimals: if self.mints.contains_key(address) {
                self.mints[address].decimals
            } else {
                0
            },
        }
    }

    pub open spec fn with_mint(self, mint: Mint) -> LedgerView {
        LedgerView {
            mints: self.mints.insert(
                mint.address,
                MintState { decimals: mint.decimals, supply: 0 },
            ),
            balances: self.balances,
        }
    }

    /// `amount` new tokens of `mint` in the account of `owner`.
    pub open spec fn minted(self, owner: Owner, mint: Address, amount: nat) -> LedgerView {
        let key = AccountKey { owner, mint };
        LedgerView {
            mints: self.mints.insert(
                mint,
                MintState {
                    decimals: self.mints[mint].decimals,
                    supply: (self.mints[mint].supply + amount) as u64,
                },
            ),
            balances: self.balances.insert(key, self.balances[key] + amount),
        }
    }

    /// `amount` tokens of `mint` moved from the account of `from` to that
    /// of `to`.
    pub open spec fn moved(self, from: Owner, to: Owner, mint: Address, amount: nat) -> LedgerView {
        let source = AccountKey { owner: from, mint };
        let target = AccountKey { owner: to, mint };
        let debited = self.balances.insert(source, (self.balances[source] - amount) as nat);
        LedgerView { mints: self.mints, balances: debited.insert(target, debited[target] + amount) }
    }
}

/// The sum of the balances that the entries of `s` hold of `mint`.
pub open spec fn total(s: Seq<(AccountKey, u64)>, mint: Address) -> nat
    decreases s.len(),
{
    if s.len() == 0 {
        0
    } else {
        total(s.drop_last(), mint) + if s.last().0.mint == mint {
            s.last().1 as nat
        } else {
            0
        }
    }
}

proof fn lemma_total_none(s: Seq<(AccountKey, u64)>, mint: Address)
    requires
        forall|i: int| 0 <= i < s.len() ==> (#[trigger] s[i]).0.mint != mint,
    ensures
        total(s, mint) == 0,
    decreases s.len(),
{
    if s.len() > 0 {
        lemma_total_none(s.drop_last(), mint);
    }
}

proof fn lemma_total_push(s: Seq<(AccountKey, u64)>, entry: (AccountKey, u64), mint: Address)
    ensures
        total(s.push(entry), mint) == total(s, mint) + if entry.0.mint == mint {
            entry.1 as nat
        } else {
            0
        },
{
    assert(s.push(entry).drop_last() =~= s);
}

proof fn lemma_total_update(s: Seq<(AccountKey, u64)>, i: int, value: u64, mint: Address)
    requires
        0 <= i < s.len(),
    ensures
        total(s.update(i, (s[i].0, value)), mint) == total(s, mint) + if s[i].0.mint == mint {
            value - s[i].1
        } else {
            0
        },
    decreases s.len(),
{
    let t = s.update(i, (s[i].0, value));
    if i == s.len() - 1 {
        assert(t.drop_last() =~= s.drop_last());
    } else {
        assert(t.drop_last() =~= s.drop_last().update(i, (s[i].0, value)));
        lemma_total_update(s.drop_last(), i, value, mint);
    }
}

proof fn lemma_total_one(s: Seq<(AccountKey, u64)>, i: int, mint: Address)
    requires
        0 <= i < s.len(),
        s[i].0.mint == mint,
    ensures
        s[i].1 <= total(s, mint),
    decreases s.len(),
{
    if i < s.len() - 1 {
        lemma_total_one(s.drop_last(), i, mint);
    }
}

proof fn lemma_total_pair(s: Seq<(AccountKey, u64)>, i: int, j: int, mint: Address)
    requires
        0 <= i < s.len(),
        0 <= j < s.len(),
        i != j,
        s[i].0.mint == mint,
        s[j].0.mint == mint,
    ensures
        s[i].1 + s[j].1 <= total(s, mint),
    decreases s.len(),
{
    let n = s.len() - 1;
    if i == n {
        lemma_total_one(s.drop_last(), j, mint);
    } else if j == n {
        lemma_total_one(s.drop_last(), i, mint);
    } else {
        lemma_total_pair(s.drop_last(), i, j, mint);
    }
}

/// The token ledger. What is held of an asset always adds up to the supply
/// recorded for it, so no balance can overflow.
pub struct Ledger {
    mints: Registry<Address, MintState>,
    accounts: Registry<AccountKey, u64>,
}

impl View for Ledger {
    type V = LedgerView;

    closed spec fn view(&self) -> LedgerView {
        LedgerView {
            mints: self.mints@,
            balances: Map::total(
                |k: AccountKey|
                    if self.accounts@.contains_key(k) {
                        self.accounts@[k] as nat
                    } else {
                        0
                    },
            ),
        }
    }
}

impl Ledger {
    pub closed spec fn wf(&self) -> bool {
        &&& self.mints.wf()
        &&& self.accounts.wf()
        &&& forall|k: AccountKey| #[trigger]
            self.accounts@.contains_key(k) ==> self.mints@.contains_key(k.mint)
        &&& forall|m: Address| #[trigger]
            self.mints@.contains_key(m) ==> total(self.accounts.entries(), m)
                == self.mints@[m].supply
    }

    /// A well-formed ledger has a well-formed view.
    pub proof fn lemma_view_wf(&self)
        requires
            self.wf(),
        ensures
            self@.wf(),
    {
    }

    /// What is held of a registered asset never exceeds its supply: not by
    /// one owner, and not by two owners together.
    pub proof fn lemma_balances_within_supply(&self, one: Owner, other: Owner, mint: Address)
        requires
            self.wf(),
            self@.mints.contains_key(mint),
        ensures
            self@.balance(one, mint) <= self@.mints[mint].supply,
            one != other ==> self@.balance(one, mint) + self@.balance(other, mint)
                <= self@.mints[mint].supply,
    {
        let s = self.accounts.entries();
        let first = AccountKey { owner: one, mint };
        let second = AccountKey { owner: other, mint };
        if self.accounts@.contains_key(first) {
            let i = index_of(s, first);
            lemma_as_map_at(s, i);
            lemma_total_one(s, i, mint);
            if one != other && self.accounts@.contains_key(second) {
                let j = index_of(s, second);
                lemma_as_map_at(s, j);
                lemma_total_pair(s, i, j, mint);
            }
        } else if self.accounts@.contains_key(second) {
            let j = index_of(s, second);
            lemma_as_map_at(s, j);
            lemma_total_one(s, j, mint);
        }
    }

    /// A ledger with no asset and no balance.
    pub fn new() -> (r: Ledger)
        ensures
            r.wf(),
            r@ == LedgerView::empty(),
    {
        let r = Ledger { mints: Registry::new(), accounts: Registry::new() };
        assert(r@.balances =~= LedgerView::empty().balances);
        r
    }

    /// Registers an asset, with nothing of it in supply. Returns whether it
    /// did: an address is registered once.
    pub fn register_mint(&mut self, mint: Mint) -> (r: bool)
        requires
            old(self).wf(),
        ensures
            final(self).wf(),
            r == !old(self)@.mints.contains_key(mint.address),
            final(self)@ == (if r {
                old(self)@.with_mint(mint)
            } else {
                old(self)@
            }),
    {
        match self.mints.find(&mint.address) {
            Some(_) => { return false; },
            None => {},
        }
        proof {
            let s = self.accounts.entries();
            assert forall|i: int| 0 <= i < s.len() implies (#[trigger] s[i]).0.mint
                != mint.address by {
                lemma_as_map_at(s, i);
                assert(self.accounts@.contains_key(s[i].0));
                assert(self.mints@.contains_key(s[i].0.mint));
            }
            lemma_total_none(s, mint.address);
        }
        self.mints.push_new(mint.address, MintState { decimals: mint.decimals, supply: 0 });
        assert(self@.balances =~= old(self)@.balances);
        true
    }

    /// Issues `amount` new tokens of `mint` to `owner`. Returns whether it
    /// did: the asset must be registered and its supply must stay within
    /// `u64`.
    pub fn mint_to(&mut self, owner: &Owner, mint: &Address, amount: u64) -> (r: bool)
        requires
            old(self).wf(),
        ensures
            final(self).wf(),
            r == (old(self)@.mints.contains_key(*mint) && old(self)@.mints[*mint].supply + amount
                <= u64::MAX),
            final(self)@ == (if r {
                old(self)@.minted(*owner, *mint, amount as nat)
            } else {
                old(self)@
            }),
    {
        let slot = match self.mints.find(mint) {
            Some(slot) => slot,
            None => { return false; },
        };
        let state = self.mints.value_at(slot);
        let supply = match state.supply.checked_add(amount) {
            Some(supply) => supply,
            None => { return false; },
        };
        let key = AccountKey { owner: *owner, mint: *mint };
        let ghost before = self.accounts.entries();
        match self.accounts.find(&key) {
            Some(i) => {
                let held = self.accounts.value_at(i);
                proof {
                    lemma_total_one(before, i as int, *mint);
                    assert forall|m: Address| #[trigger] total(
                        before.update(i as int, (key, (held + amount) as u64)),
                        m,
                    ) == total(before, m) + if m == *mint {
                        amount as int
                    } else {
                        0
                    } by {
                        lemma_total_update(before, i as int, (held + amount) as u64, m);
                    }
                }
                self.accounts.update_at(i, held + amount);
            },
            None => {
                proof {
                    assert forall|m: Address| #[trigger] total(before.push((key, amount)), m)
                        == total(before, m) + if m == *mint {
                        amount as int
                    } else {
                        0
                    } by {
                        lemma_total_push(before, (key, amount), m);
                    }
                }
                self.accounts.push_new(key, amount);
            },
        }
        self.mints.update_at(slot, MintState { decimals: state.decimals, supply });
        assert(self@.balances =~= old(self)@.minted(*owner, *mint, amount as nat).balances);
        assert(self@.mints =~= old(self)@.minted(*owner, *mint, amount as nat).mints);
        true
    }

    /// What `owner` holds of `mint`.
    pub fn balance(&self, owner: &Owner, mint: &Address) -> (r: u64)
        requires
            self.wf(),
        ensures
            r == self@.balance(*owner, *mint),
    {
        match self.accounts.get(&AccountKey { owner: *owner, mint: *mint }) {
            Some(held) => held,
            None => 0,
        }
    }

    /// What the ledger records of the asset at `mint`, where it is
    /// registered.
    pub fn mint_state(&self, mint: &Address) -> (r: Option<MintState>)
        requires
            self.wf(),
        ensures
            r == (if self@.mints.contains_key(*mint) {
                Some(self@.mints[*mint])
            } else {
                None
            }),
    {
        self.mints.get(mint)
    }

    /// The asset at `address` with the decimals recorded for it (zero where
    /// it is not registered).
    pub fn canonical(&self, address: &Address) -> (r: Mint)
        requires
            self.wf(),
        ensures
            r == self@.canonical(*address),
    {
        match self.mints.get(address) {
            Some(state) => Mint { address: *address, decimals: state.decimals },
            None => Mint { address: *address, decimals: 0 },
        }
    }

    /// Moves `amount` tokens of `mint` from `from` to `to`, who may be the
    /// same owner.
    pub(crate) fn transfer(&mut self, from: &Owner, to: &Owner, mint: &Address, amount: u64)
        requires
            old(self).wf(),
            old(self)@.balance(*from, *mint) >= amount,
        ensures
            final(self).wf(),
            final(self)@ == old(self)@.moved(*from, *to, *mint, amount as nat),
    {
        let source = AccountKey { owner: *from, mint: *mint };
        let target = AccountKey { owner: *to, mint: *mint };
        if amount == 0 || source.same(&target) {
            assert(self@.balances =~= old(self)@.moved(*from, *to, *mint, amount as nat).balances);
            return ;
        }
        let ghost before = self.accounts.entries();
        let i = match self.accounts.find(&source) {
            Some(i) => i,
            // No entry is a balance of zero, which covers no positive amount.
            None => { return ; },
        };
        let held = self.accounts.value_at(i);
        proof {
            assert forall|m: Address| #[trigger] total(
                before.update(i as int, (source, (held - amount) as u64)),
                m,
            ) == total(before, m) - if m == *mint {
                amount as int
            } else {
                0
            } by {
                lemma_total_update(before, i as int, (held - amount) as u64, m);
            }
        }
        match self.accounts.find(&target) {
            Some(j) => {
                let had = self.accounts.value_at(j);
                proof {
                    lemma_total_pair(before, i as int, j as int, *mint);
                }
                self.accounts.update_at(i, held - amount);
                let ghost between = self.accounts.entries();
                proof {
                    assert forall|m: Address| #[trigger] total(
                        between.update(j as int, (target, (had + amount) as u64)),
                        m,
                    ) == total(between, m) + if m == *mint {
                        amount as int
                    } else {
                        0
                    } by {
                        lemma_total_update(between, j as int, (had + amount) as u64, m);
                    }
                }
                self.accounts.update_at(j, had + amount);
            },
            None => {
                self.accounts.update_at(i, held - amount);
                let ghost between = self.accounts.entries();
                proof {
                    assert forall|m: Address| #[trigger] total(between.push((target, amount)), m)
                        == total(between, m) + if m == *mint {
                        amount as int
                    } else {
                        0
                    } by {
                        lemma_total_push(between, (target, amount), m);
                    }
                }
                self.accounts.push_new(target, amount);
            },
        }
        assert(self@.balances =~= old(self)@.moved(*from, *to, *mint, amount as nat).balances);
    }
}

} // verus!
