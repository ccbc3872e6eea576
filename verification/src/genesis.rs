//! One-shot genesis build: populates a fresh ledger store from an explicit
//! list of balances and allowances, bypassing the `init` precondition.
//!
//! The bootstrap accepts a configuration only when the balance accounts are
//! pairwise distinct, the allowance pairs are pairwise distinct, the
//! balances sum to no more than the declared total supply, and the metadata
//! strings fit their bound; [`GenesisConfig::is_valid`] decides exactly
//! that, and the build paths require it. This path runs before any
//! rollback mechanism exists, so an unacceptable configuration must abort
//! the whole bootstrap — the caller checks first and never builds from a
//! rejected configuration.

use vstd::prelude::*;

use crate::arith;
use crate::store::{
    contains_key, keys_distinct, lemma_sum_take_le, lemma_sum_take_succ,
    lemma_value_absent, lemma_value_push, sum_of, value_of,
};
use crate::ledger::{lemma_empty_store_reads, AccountId, Balance, Pallet, KEY_LIMIT};

verus! {

/// The allowance list as a keyed table: `(owner, spender)` to amount.
pub open spec fn allowance_entries(s: Seq<(AccountId, AccountId, Balance)>) -> Seq<
    ((AccountId, AccountId), Balance),
> {
    s.map_values(|t: (AccountId, AccountId, Balance)| ((t.0, t.1), t.2))
}

/// An explicit genesis description: initial balances and allowances, the
/// token metadata, and the initial state of the initialization flag.
pub struct GenesisConfig {
    pub balances: Vec<(AccountId, Balance)>,
    pub allowances: Vec<(AccountId, AccountId, Balance)>,
    pub name: Vec<u8>,
    pub symbol: Vec<u8>,
    pub total_supply: Balance,
    pub init: bool,
}

impl GenesisConfig {
    /// The allowance list keyed by `(owner, spender)`.
    pub open spec fn allowance_pairs(&self) -> Seq<((AccountId, AccountId), Balance)> {
        allowance_entries(self.allowances@)
    }

    /// What the bootstrap accepts: no duplicate account, no duplicate
    /// allowance pair, balances summing to no more than the declared total
    /// supply, and metadata within its bound.
    pub open spec fn valid(&self) -> bool {
        &&& keys_distinct(self.balances@)
        &&& keys_distinct(self.allowance_pairs())
        &&& sum_of(self.balances@) <= self.total_supply
        &&& self.name@.len() <= KEY_LIMIT
        &&& self.symbol@.len() <= KEY_LIMIT
    }

    /// Decides [`Self::valid`]: whether the bootstrap would accept this
    /// configuration. The running balance sum is folded through the
    /// arithmetic guard, so a sum that wraps the balance type is rejected
    /// just like one that exceeds the total supply.
    pub fn is_valid(&self) -> (r: bool)
        ensures
            r == self.valid(),
    {
        if self.name.len() > KEY_LIMIT {
            return false;
        }
        if self.symbol.len() > KEY_LIMIT {
            return false;
        }
        if !balance_keys_distinct(&self.balances) {
            return false;
        }
        if !allowance_keys_distinct(&self.allowances) {
            return false;
        }
        let n = self.balances.len();
        let mut total_balance: Balance = 0;
        let mut i: usize = 0;
        while i < n
            invariant
                i <= n,
                n == self.balances@.len(),
                total_balance as int == sum_of(self.balances@.take(i as int)),
            decreases n - i,
        {
            proof {
                lemma_sum_take_succ(self.balances@, i as int);
            }
            total_balance = match arith::checked_add(total_balance, self.balances[i].1) {
                Some(v) => v,
                None => {
                    proof {
                        lemma_sum_take_le(self.balances@, i as int + 1);
                    }
                    return false;
                },
            };
            i = i + 1;
        }
        proof {
            assert(self.balances@.take(n as int) =~= self.balances@);
        }
        total_balance <= self.total_supply
    }

    /// Genesis build: writes the metadata and the initialization flag, then
    /// folds the balance and allowance lists into the given fresh ledger
    /// store. Leaves the store well formed, holding exactly the listed
    /// entries; no notification is emitted at genesis.
    pub fn build(&self, storage: &mut Pallet)
        requires
            self.valid(),
            old(storage).store_ok(),
            old(storage).store_is_empty(),
        ensures
            final(storage).wf(),
            final(storage).is_initialized() == self.init,
            final(storage).spec_total_supply() == self.total_supply,
            final(storage).spec_name() == self.name@,
            final(storage).spec_symbol() == self.symbol@,
            forall|a: AccountId|
                final(storage).balance_of(a) == value_of(self.balances@, a),
            final(storage).sum_of_balances() == sum_of(self.balances@),
            forall|o: AccountId, s: AccountId|
                final(storage).allowance_of(o, s) == value_of(
                    self.allowance_pairs(),
                    (o, s),
                ),
            final(storage).spec_events() == old(storage).spec_events(),
    {
        let ghost orig_events = storage.spec_events();
        proof {
            lemma_empty_store_reads(old(storage));
        }
        let name = copy_bytes(&self.name);
        let symbol = copy_bytes(&self.symbol);
        storage.set_meta(name, symbol, self.total_supply, self.init);

        let n = self.balances.len();
        let mut i: usize = 0;
        while i < n
            invariant
                i <= n,
                n == self.balances@.len(),
                self.valid(),
                storage.store_ok(),
                storage.is_initialized() == self.init,
                storage.spec_total_supply() == self.total_supply,
                storage.spec_name() == self.name@,
                storage.spec_symbol() == self.symbol@,
                storage.sum_of_balances() == sum_of(self.balances@.take(i as int)),
                forall|a: AccountId| #[trigger]
                    storage.balance_of(a) == value_of(self.balances@.take(i as int), a),
                forall|o: AccountId, s: AccountId| #[trigger]
                    storage.allowance_of(o, s) == 0,
                storage.spec_events() == orig_events,
            decreases n - i,
        {
            let ghost prefix = self.balances@.take(i as int);
            let entry = self.balances[i];
            proof {
                assert(entry == self.balances@[i as int]);
                assert(!contains_key(prefix, entry.0)) by {
                    if contains_key(prefix, entry.0) {
                        let j = choose|j: int| 0 <= j < prefix.len() && prefix[j].0 == entry.0;
                        assert(self.balances@[j].0 == self.balances@[i as int].0);
                    }
                }
                lemma_value_absent(prefix, entry.0);
                lemma_sum_take_succ(self.balances@, i as int);
            }
            storage.set_balance(entry.0, entry.1);
            proof {
                assert(self.balances@.take(i as int + 1) =~= prefix.push(self.balances@[i as int]));
                assert forall|a: AccountId| #[trigger] storage.balance_of(a) == value_of(
                    self.balances@.take(i as int + 1),
                    a,
                ) by {
                    lemma_value_push(prefix, self.balances@[i as int], a);
                }
            }
            i = i + 1;
        }
        proof {
            assert(self.balances@.take(n as int) =~= self.balances@);
        }

        let ghost pairs = self.allowance_pairs();
        let m = self.allowances.len();
        let mut j: usize = 0;
        while j < m
            invariant
                j <= m,
                m == self.allowances@.len(),
                self.valid(),
                pairs == self.allowance_pairs(),
                storage.store_ok(),
                storage.is_initialized() == self.init,
                storage.spec_total_supply() == self.total_supply,
                storage.spec_name() == self.name@,
                storage.spec_symbol() == self.symbol@,
                storage.sum_of_balances() == sum_of(self.balances@),
                forall|a: AccountId| #[trigger]
                    storage.balance_of(a) == value_of(self.balances@, a),
                forall|o: AccountId, s: AccountId| #[trigger]
                    storage.allowance_of(o, s) == value_of(pairs.take(j as int), (o, s)),
                storage.spec_events() == orig_events,
            decreases m - j,
        {
            let ghost prefix = pairs.take(j as int);
            let trip = self.allowances[j];
            proof {
                assert(pairs[j as int] == ((trip.0, trip.1), trip.2));
                assert(!contains_key(prefix, (trip.0, trip.1))) by {
                    if contains_key(prefix, (trip.0, trip.1)) {
                        let x = choose|x: int|
                            0 <= x < prefix.len() && prefix[x].0 == (trip.0, trip.1);
                        assert(pairs[x].0 == pairs[j as int].0);
                    }
                }
            }
            storage.set_allowance(trip.0, trip.1, trip.2);
            proof {
                assert(pairs.take(j as int + 1) =~= prefix.push(pairs[j as int]));
                assert forall|o: AccountId, s: AccountId| #[trigger] storage.allowance_of(o, s)
                    == value_of(pairs.take(j as int + 1), (o, s)) by {
                    lemma_value_push(prefix, pairs[j as int], (o, s));
                }
            }
            j = j + 1;
        }
        proof {
            assert(pairs.take(m as int) =~= pairs);
        }
    }

    /// Builds a fresh ledger store from this configuration.
    pub fn build_storage(&self) -> (r: Pallet)
        requires
            self.valid(),
        ensures
            r.wf(),
            r.is_initialized() == self.init,
            r.spec_total_supply() == self.total_supply,
            r.spec_name() == self.name@,
            r.spec_symbol() == self.symbol@,
            forall|a: AccountId| r.balance_of(a) == value_of(self.balances@, a),
            r.sum_of_balances() == sum_of(self.balances@),
            forall|o: AccountId, s: AccountId|
                r.allowance_of(o, s) == value_of(self.allowance_pairs(), (o, s)),
            r.spec_events() == Seq::<crate::ledger::Event>::empty(),
    {
        let mut storage = Pallet::new();
        self.build(&mut storage);
        storage
    }

    /// Writes this configuration into the given fresh ledger store.
    pub fn assimilate_storage(&self, storage: &mut Pallet)
        requires
            self.valid(),
            old(storage).store_ok(),
            old(storage).store_is_empty(),
        ensures
            final(storage).wf(),
            final(storage).is_initialized() == self.init,
            final(storage).spec_total_supply() == self.total_supply,
            final(storage).spec_name() == self.name@,
            final(storage).spec_symbol() == self.symbol@,
            forall|a: AccountId|
                final(storage).balance_of(a) == value_of(self.balances@, a),
            final(storage).sum_of_balances() == sum_of(self.balances@),
            forall|o: AccountId, s: AccountId|
                final(storage).allowance_of(o, s) == value_of(
                    self.allowance_pairs(),
                    (o, s),
                ),
            final(storage).spec_events() == old(storage).spec_events(),
    {
        self.build(storage);
    }
}

impl Default for GenesisConfig {
    /// The empty configuration: no balances, no allowances, empty
    /// metadata, zero supply, not initialized. Always acceptable to the
    /// bootstrap.
    fn default() -> (r: GenesisConfig)
        ensures
            r.valid(),
            r.balances@.len() == 0,
            r.allowances@.len() == 0,
            r.name@.len() == 0,
            r.symbol@.len() == 0,
            r.total_supply == 0,
            !r.init,
    {
        GenesisConfig {
            balances: Vec::new(),
            allowances: Vec::new(),
            name: Vec::new(),
            symbol: Vec::new(),
            total_supply: 0,
            init: false,
        }
    }
}

/// An owned copy of a byte string.
fn copy_bytes(src: &Vec<u8>) -> (r: Vec<u8>)
    ensures
        r@ == src@,
{
    let n = src.len();
    let mut r: Vec<u8> = Vec::new();
    let mut i: usize = 0;
    while i < n
        invariant
            i <= n,
            n == src@.len(),
            r@ == src@.take(i as int),
        decreases n - i,
    {
        r.push(src[i]);
        proof {
            assert(src@.take(i as int).push(src@[i as int]) =~= src@.take(i as int + 1));
        }
        i = i + 1;
    }
    proof {
        assert(src@.take(n as int) =~= src@);
    }
    r
}

/// Whether the balance list names every account at most once.
fn balance_keys_distinct(entries: &Vec<(AccountId, Balance)>) -> (r: bool)
    ensures
        r == keys_distinct(entries@),
{
    let n = entries.len();
    let mut i: usize = 0;
    while i < n
        invariant
            i <= n,
            n == entries@.len(),
            forall|x: int, y: int|
                0 <= x < y < i ==> (#[trigger] entries@[x]).0 != (#[trigger] entries@[y]).0,
        decreases n - i,
    {
        let mut j: usize = 0;
        while j < i
            invariant
                j <= i,
                i < n,
                n == entries@.len(),
                forall|x: int, y: int|
                    0 <= x < y < i ==> (#[trigger] entries@[x]).0 != (#[trigger] entries@[y]).0,
                forall|x: int| 0 <= x < j ==> (#[trigger] entries@[x]).0 != entries@[i as int].0,
            decreases i - j,
        {
            if entries[j].0 == entries[i].0 {
                assert(!keys_distinct(entries@));
                return false;
            }
            j = j + 1;
        }
        i = i + 1;
    }
    true
}

/// Whether the allowance list names every `(owner, spender)` pair at most
/// once.
fn allowance_keys_distinct(entries: &Vec<(AccountId, AccountId, Balance)>) -> (r: bool)
    ensures
        r == keys_distinct(allowance_entries(entries@)),
{
    let ghost pairs = allowance_entries(entries@);
    let n = entries.len();
    let mut i: usize = 0;
    while i < n
        invariant
            i <= n,
            n == entries@.len(),
            pairs == allowance_entries(entries@),
            pairs.len() == n,
            forall|x: int, y: int|
                0 <= x < y < i ==> (#[trigger] pairs[x]).0 != (#[trigger] pairs[y]).0,
        decreases n - i,
    {
        let mut j: usize = 0;
        while j < i
            invariant
                j <= i,
                i < n,
                n == entries@.len(),
                pairs == allowance_entries(entries@),
                pairs.len() == n,
                forall|x: int, y: int|
                    0 <= x < y < i ==> (#[trigger] pairs[x]).0 != (#[trigger] pairs[y]).0,
                forall|x: int| 0 <= x < j ==> (#[trigger] pairs[x]).0 != pairs[i as int].0,
            decreases i - j,
        {
            let a = entries[j];
            let b = entries[i];
            if a.0 == b.0 && a.1 == b.1 {
                proof {
                    assert(pairs[j as int].0 == pairs[i as int].0);
                    assert(!keys_distinct(pairs));
                }
                return false;
            }
            proof {
                assert(pairs[j as int].0 == (entries@[j as int].0, entries@[j as int].1));
                assert(pairs[i as int].0 == (entries@[i as int].0, entries@[i as int].1));
            }
            j = j + 1;
        }
        i = i + 1;
    }
    true
}

} // verus!
