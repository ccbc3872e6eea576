//! The ledger: balances, allowances, token metadata, and the operations
//! that mutate them.
//!
//! `Pallet` is an explicit ledger-state value; every engine call takes it by
//! reference. Each successful mutating operation appends exactly one
//! notification record to the ledger's event list; a failed operation leaves
//! the whole state unchanged (with the one documented exception in
//! [`Pallet::transferFrom`]).

use vstd::prelude::*;

use crate::arith;
use crate::store::{
    contains_key, keys_distinct, lemma_distinct_push, lemma_distinct_update,
    lemma_sum_nonneg, lemma_sum_push, lemma_sum_update, lemma_value_absent,
    lemma_value_first, lemma_value_le_sum, lemma_value_push, lemma_value_update,
    sum_of, value_of,
};

verus! {

/// A participant in the ledger: opaque beyond identity.
pub type AccountId = u64;

/// Token amounts: balances, allowances and the total supply.
pub type Balance = u128;

/// Upper bound on the stored token name and symbol, in bytes; an external
/// configuration constant.
pub const KEY_LIMIT: usize = 20;

/// The failure outcomes of ledger operations. All are local, recoverable
/// failures except `Overflow`, which would signal broken total-supply
/// accounting; under the ledger invariant it is proved unreachable.
#[derive(Clone, Copy, Debug, PartialEq, Eq, Structural)]
pub enum Error {
    AlreadyInitialized,
    NotInitialized,
    InsufficientFunds,
    InsufficientAllowance,
    Overflow,
}

/// Notification records handed to the external event sink. Each successful
/// mutating operation emits exactly one.
#[derive(Clone, Copy, Debug, PartialEq, Eq, Structural)]
pub enum Event {
    Initialized(AccountId),
    Transfer(AccountId, AccountId, Balance),
    Approval(AccountId, AccountId, Balance),
    Balance(Balance),
}

/// The ledger state: balance and allowance tables, token metadata, the
/// one-time initialization flag, and the notifications emitted so far.
pub struct Pallet {
    balances: Vec<(AccountId, Balance)>,
    allowances: Vec<((AccountId, AccountId), Balance)>,
    name: Vec<u8>,
    symbol: Vec<u8>,
    total_supply: Balance,
    initialized: bool,
    events: Vec<Event>,
}

impl Pallet {
    /// The balance of `account`; zero when absent.
    pub closed spec fn balance_of(&self, account: AccountId) -> Balance {
        value_of(self.balances@, account)
    }

    /// How much `spender` may still move out of `owner`'s balance; zero
    /// when absent.
    pub closed spec fn allowance_of(&self, owner: AccountId, spender: AccountId) -> Balance {
        value_of(self.allowances@, (owner, spender))
    }

    /// The total value currently held across all accounts.
    pub closed spec fn sum_of_balances(&self) -> int {
        sum_of(self.balances@)
    }

    pub closed spec fn is_initialized(&self) -> bool {
        self.initialized
    }

    pub closed spec fn spec_total_supply(&self) -> Balance {
        self.total_supply
    }

    pub closed spec fn spec_name(&self) -> Seq<u8> {
        self.name@
    }

    pub closed spec fn spec_symbol(&self) -> Seq<u8> {
        self.symbol@
    }

    pub closed spec fn spec_events(&self) -> Seq<Event> {
        self.events@
    }

    /// Both tables hold no entry at all: the state a ledger is created in.
    pub closed spec fn store_is_empty(&self) -> bool {
        self.balances@.len() == 0 && self.allowances@.len() == 0
    }

    /// Structural soundness of the stored tables: no duplicate keys, and
    /// the metadata strings within their bound.
    pub closed spec fn store_ok(&self) -> bool {
        &&& keys_distinct(self.balances@)
        &&& keys_distinct(self.allowances@)
        &&& self.spec_name().len() <= KEY_LIMIT
        &&& self.spec_symbol().len() <= KEY_LIMIT
    }

    /// The ledger invariant: a sound store whose balances never sum to more
    /// than the declared total supply.
    pub open spec fn wf(&self) -> bool {
        self.store_ok() && self.sum_of_balances() <= self.spec_total_supply()
    }

    /// Every account holds the same balance in both states.
    pub open spec fn same_balances(&self, other: &Pallet) -> bool {
        forall|a: AccountId| self.balance_of(a) == other.balance_of(a)
    }

    /// Every (owner, spender) pair holds the same allowance in both states.
    pub open spec fn same_allowances(&self, other: &Pallet) -> bool {
        forall|o: AccountId, s: AccountId| self.allowance_of(o, s) == other.allowance_of(o, s)
    }

    /// Name, symbol, total supply and the initialization flag agree.
    pub open spec fn same_meta(&self, other: &Pallet) -> bool {
        &&& self.spec_name() == other.spec_name()
        &&& self.spec_symbol() == other.spec_symbol()
        &&& self.spec_total_supply() == other.spec_total_supply()
        &&& self.is_initialized() == other.is_initialized()
    }

    /// A fresh ledger: empty tables, zero supply, not initialized, no
    /// events emitted.
    pub fn new() -> (r: Pallet)
        ensures
            r.wf(),
            r.store_is_empty(),
            !r.is_initialized(),
            r.spec_total_supply() == 0,
            r.sum_of_balances() == 0,
            forall|a: AccountId| r.balance_of(a) == 0,
            forall|o: AccountId, s: AccountId| r.allowance_of(o, s) == 0,
            r.spec_name() == Seq::<u8>::empty(),
            r.spec_symbol() == Seq::<u8>::empty(),
            r.spec_events() == Seq::<Event>::empty(),
    {
        Pallet {
            balances: Vec::new(),
            allowances: Vec::new(),
            name: Vec::new(),
            symbol: Vec::new(),
            total_supply: 0,
            initialized: false,
            events: Vec::new(),
        }
    }

    /// The index of the first balance entry for `account`, if any.
    fn balance_index(&self, account: AccountId) -> (r: Option<usize>)
        ensures
            match r {
                Some(i) => {
                    &&& i < self.balances@.len()
                    &&& self.balances@[i as int].0 == account
                    &&& forall|j: int| 0 <= j < i ==> self.balances@[j].0 != account
                },
                None => forall|j: int|
                    0 <= j < self.balances@.len() ==> self.balances@[j].0 != account,
            },
    {
        let n = self.balances.len();
        let mut i: usize = 0;
        while i < n
            invariant
                i <= n,
                n == self.balances@.len(),
                forall|j: int| 0 <= j < i ==> self.balances@[j].0 != account,
            decreases n - i,
        {
            if self.balances[i].0 == account {
                return Some(i);
            }
            i = i + 1;
        }
        None
    }

    /// The index of the first allowance entry for `(owner, spender)`, if
    /// any.
    fn allowance_index(&self, owner: AccountId, spender: AccountId) -> (r: Option<usize>)
        ensures
            match r {
                Some(i) => {
                    &&& i < self.allowances@.len()
                    &&& self.allowances@[i as int].0 == (owner, spender)
                    &&& forall|j: int| 0 <= j < i ==> self.allowances@[j].0 != (owner, spender)
                },
                None => forall|j: int|
                    0 <= j < self.allowances@.len()
                        ==> self.allowances@[j].0 != (owner, spender),
            },
    {
        let n = self.allowances.len();
        let mut i: usize = 0;
        while i < n
            invariant
                i <= n,
                n == self.allowances@.len(),
                forall|j: int| 0 <= j < i ==> self.allowances@[j].0 != (owner, spender),
            decreases n - i,
        {
            let key = self.allowances[i].0;
            if key.0 == owner && key.1 == spender {
                return Some(i);
            }
            i = i + 1;
        }
        None
    }

    /// Ledger Store read: the balance of `account`, zero if absent. Never
    /// fails.
    pub fn get_balance(&self, account: AccountId) -> (r: Balance)
        ensures
            r == self.balance_of(account),
    {
        match self.balance_index(account) {
            Some(i) => {
                proof {
                    lemma_value_first(self.balances@, i as int, account);
                }
                self.balances[i].1
            },
            None => {
                proof {
                    lemma_value_absent(self.balances@, account);
                }
                0
            },
        }
    }

    /// Ledger Store read: the allowance of `(owner, spender)`, zero if
    /// absent. Never fails.
    pub fn get_allowance(&self, owner: AccountId, spender: AccountId) -> (r: Balance)
        ensures
            r == self.allowance_of(owner, spender),
    {
        match self.allowance_index(owner, spender) {
            Some(i) => {
                proof {
                    lemma_value_first(self.allowances@, i as int, (owner, spender));
                }
                self.allowances[i].1
            },
            None => {
                proof {
                    lemma_value_absent(self.allowances@, (owner, spender));
                }
                0
            },
        }
    }

    /// Ledger Store write: unconditional overwrite of `account`'s balance.
    /// A pure storage primitive with no validation; keeping the sum of
    /// balances bounded is the caller's job, so only the sum's change is
    /// stated here.
    pub fn set_balance(&mut self, account: AccountId, value: Balance)
        requires
            old(self).store_ok(),
        ensures
            final(self).store_ok(),
            final(self).balance_of(account) == value,
            forall|a: AccountId|
                a != account ==> final(self).balance_of(a) == old(self).balance_of(a),
            final(self).sum_of_balances()
                == old(self).sum_of_balances() - old(self).balance_of(account) + value,
            final(self).same_allowances(old(self)),
            final(self).same_meta(old(self)),
            final(self).spec_events() == old(self).spec_events(),
    {
        let ghost s0 = self.balances@;
        match self.balance_index(account) {
            Some(i) => {
                proof {
                    lemma_value_first(s0, i as int, account);
                    lemma_sum_update(s0, i as int, value);
                    lemma_distinct_update(s0, i as int, value);
                }
                self.balances[i] = (account, value);
                proof {
                    assert(self.balances@ =~= s0.update(i as int, (s0[i as int].0, value)));
                    assert forall|a: AccountId| #[trigger] self.balance_of(a)
                        == if a == account { value } else { value_of(s0, a) } by {
                        lemma_value_update(s0, i as int, value, a);
                    }
                }
            },
            None => {
                proof {
                    assert(!contains_key(s0, account));
                    lemma_value_absent(s0, account);
                    lemma_sum_push(s0, (account, value));
                    lemma_distinct_push(s0, (account, value));
                }
                self.balances.push((account, value));
                proof {
                    assert forall|a: AccountId| #[trigger] self.balance_of(a)
                        == if a == account { value } else { value_of(s0, a) } by {
                        lemma_value_push(s0, (account, value), a);
                    }
                }
            },
        }
    }

    /// Ledger Store write: unconditional overwrite of the allowance of
    /// `(owner, spender)`. A pure storage primitive with no validation.
    pub fn set_allowance(&mut self, owner: AccountId, spender: AccountId, value: Balance)
        requires
            old(self).store_ok(),
        ensures
            final(self).store_ok(),
            final(self).allowance_of(owner, spender) == value,
            forall|o: AccountId, s: AccountId|
                !(o == owner && s == spender)
                    ==> final(self).allowance_of(o, s) == old(self).allowance_of(o, s),
            final(self).same_balances(old(self)),
            final(self).sum_of_balances() == old(self).sum_of_balances(),
            final(self).same_meta(old(self)),
            final(self).spec_events() == old(self).spec_events(),
    {
        let ghost s0 = self.allowances@;
        match self.allowance_index(owner, spender) {
            Some(i) => {
                proof {
                    lemma_distinct_update(s0, i as int, value);
                }
                self.allowances[i] = ((owner, spender), value);
                proof {
                    assert(self.allowances@ =~= s0.update(i as int, (s0[i as int].0, value)));
                    assert forall|o: AccountId, s: AccountId| #[trigger] self.allowance_of(o, s)
                        == if o == owner && s == spender { value } else {
                            value_of(s0, (o, s))
                        } by {
                        lemma_value_update(s0, i as int, value, (o, s));
                    }
                }
            },
            None => {
                proof {
                    assert(!contains_key(s0, (owner, spender)));
                    lemma_distinct_push(s0, ((owner, spender), value));
                }
                self.allowances.push(((owner, spender), value));
                proof {
                    assert forall|o: AccountId, s: AccountId| #[trigger] self.allowance_of(o, s)
                        == if o == owner && s == spender { value } else {
                            value_of(s0, (o, s))
                        } by {
                        lemma_value_push(s0, ((owner, spender), value), (o, s));
                    }
                }
            },
        }
    }

    /// Allowance engine: unconditionally overwrites the allowance of
    /// `(sender, spender)` with `value` — not additive — and records an
    /// `Approval` notification. Always succeeds.
    pub fn doApprove(&mut self, sender: AccountId, spender: AccountId, value: Balance) -> (r:
        Result<(), Error>)
        requires
            old(self).store_ok(),
        ensures
            r == Ok::<(), Error>(()),
            final(self).store_ok(),
            final(self).allowance_of(sender, spender) == value,
            forall|o: AccountId, s: AccountId|
                !(o == sender && s == spender)
                    ==> final(self).allowance_of(o, s) == old(self).allowance_of(o, s),
            final(self).same_balances(old(self)),
            final(self).sum_of_balances() == old(self).sum_of_balances(),
            final(self).same_meta(old(self)),
            final(self).spec_events()
                == old(self).spec_events().push(Event::Approval(sender, spender, value)),
    {
        self.set_allowance(sender, spender, value);
        self.events.push(Event::Approval(sender, spender, value));
        Ok(())
    }

    /// Allowance engine: decrements the allowance of `(owner, spender)` by
    /// `amount`, failing with `InsufficientAllowance` when the current
    /// allowance cannot cover it. The reduced allowance is written through
    /// the same overwrite path as `doApprove`, which re-emits an `Approval`
    /// notification — a deliberate side effect of the reuse, not a separate
    /// event kind.
    pub fn doSpendAllowance(&mut self, owner: AccountId, spender: AccountId, amount: Balance)
        -> (r: Result<(), Error>)
        requires
            old(self).store_ok(),
        ensures
            final(self).store_ok(),
            old(self).allowance_of(owner, spender) >= amount ==> {
                &&& r == Ok::<(), Error>(())
                &&& final(self).allowance_of(owner, spender)
                    == old(self).allowance_of(owner, spender) - amount
                &&& forall|o: AccountId, s: AccountId|
                    !(o == owner && s == spender)
                        ==> final(self).allowance_of(o, s) == old(self).allowance_of(o, s)
                &&& final(self).same_balances(old(self))
                &&& final(self).sum_of_balances() == old(self).sum_of_balances()
                &&& final(self).same_meta(old(self))
                &&& final(self).spec_events() == old(self).spec_events().push(
                    Event::Approval(
                        owner,
                        spender,
                        (old(self).allowance_of(owner, spender) - amount) as Balance,
                    ),
                )
            },
            old(self).allowance_of(owner, spender) < amount ==> {
                &&& r == Err::<(), Error>(Error::InsufficientAllowance)
                &&& *final(self) == *old(self)
            },
    {
        let current_allowance = self.get_allowance(owner, spender);
        let updated_allowance = match arith::checked_sub(current_allowance, amount) {
            Some(v) => v,
            None => {
                return Err(Error::InsufficientAllowance);
            },
        };
        self.doApprove(owner, spender, updated_allowance)
    }

    /// Transfer engine: moves `value` from `from` to `to`, failing with
    /// `InsufficientFunds` — before anything is written — when `from`'s
    /// balance cannot cover it. Value is conserved: the sum of balances is
    /// unchanged, and a transfer to oneself leaves the balance as it was.
    /// Under the ledger invariant the credit to `to` is proved never to
    /// overflow, so the `Overflow` outcome is unreachable. Records a
    /// `Transfer` notification on success.
    pub fn doTransfer(&mut self, from: AccountId, to: AccountId, value: Balance) -> (r: Result<
        (),
        Error,
    >)
        requires
            old(self).wf(),
        ensures
            final(self).wf(),
            old(self).balance_of(from) >= value ==> {
                &&& r == Ok::<(), Error>(())
                &&& from != to ==> {
                    &&& final(self).balance_of(from) == old(self).balance_of(from) - value
                    &&& final(self).balance_of(to) == old(self).balance_of(to) + value
                }
                &&& from == to ==> final(self).balance_of(from) == old(self).balance_of(from)
                &&& forall|a: AccountId|
                    a != from && a != to
                        ==> final(self).balance_of(a) == old(self).balance_of(a)
                &&& final(self).sum_of_balances() == old(self).sum_of_balances()
                &&& final(self).same_allowances(old(self))
                &&& final(self).same_meta(old(self))
                &&& final(self).spec_events()
                    == old(self).spec_events().push(Event::Transfer(from, to, value))
            },
            old(self).balance_of(from) < value ==> {
                &&& r == Err::<(), Error>(Error::InsufficientFunds)
                &&& *final(self) == *old(self)
            },
    {
        let from_balance = self.get_balance(from);
        let updated_from_balance = match arith::checked_sub(from_balance, value) {
            Some(v) => v,
            None => {
                return Err(Error::InsufficientFunds);
            },
        };
        self.set_balance(from, updated_from_balance);
        let receiver_balance = self.get_balance(to);
        proof {
            lemma_value_le_sum(self.balances@, to);
            lemma_sum_nonneg(self.balances@);
        }
        let updated_to_balance = match arith::checked_add(receiver_balance, value) {
            Some(v) => v,
            None => {
                // Unreachable: the sum of balances is bounded by the total
                // supply, which fits the balance type.
                return Err(Error::Overflow);
            },
        };
        self.set_balance(to, updated_to_balance);
        self.events.push(Event::Transfer(from, to, value));
        Ok(())
    }

    /// One-time setup: fixes the token metadata, credits the whole total
    /// supply to `caller`, raises the initialization flag, and records an
    /// `Initialized` notification. Explicitly not idempotent: once the flag
    /// is up, every further call fails with `AlreadyInitialized` and
    /// changes nothing. Expects to be the first crediting operation — on an
    /// uninitialized ledger all balances are still zero.
    pub fn init(
        &mut self,
        caller: AccountId,
        totalSupply: Balance,
        name: Vec<u8>,
        symbol: Vec<u8>,
    ) -> (r: Result<(), Error>)
        requires
            old(self).wf(),
            name@.len() <= KEY_LIMIT,
            symbol@.len() <= KEY_LIMIT,
            !old(self).is_initialized() ==> old(self).sum_of_balances() == 0,
        ensures
            final(self).wf(),
            old(self).is_initialized() ==> {
                &&& r == Err::<(), Error>(Error::AlreadyInitialized)
                &&& *final(self) == *old(self)
            },
            !old(self).is_initialized() ==> {
                &&& r == Ok::<(), Error>(())
                &&& final(self).is_initialized()
                &&& final(self).spec_total_supply() == totalSupply
                &&& final(self).balance_of(caller) == totalSupply
                &&& forall|a: AccountId|
                    a != caller ==> final(self).balance_of(a) == old(self).balance_of(a)
                &&& final(self).sum_of_balances() == totalSupply
                &&& final(self).same_allowances(old(self))
                &&& final(self).spec_name() == name@
                &&& final(self).spec_symbol() == symbol@
                &&& final(self).spec_events()
                    == old(self).spec_events().push(Event::Initialized(caller))
            },
    {
        if self.is_init() {
            return Err(Error::AlreadyInitialized);
        }
        proof {
            lemma_value_le_sum(self.balances@, caller);
            lemma_sum_nonneg(self.balances@);
        }
        self.total_supply = totalSupply;
        self.set_balance(caller, totalSupply);
        let ghost mid = *self;
        self.name = name;
        self.symbol = symbol;
        self.initialized = true;
        self.events.push(Event::Initialized(caller));
        proof {
            assert forall|a: AccountId|
                a != caller implies self.balance_of(a) == old(self).balance_of(a) by {
                assert(mid.balance_of(a) == old(self).balance_of(a));
                assert(self.balance_of(a) == mid.balance_of(a));
            }
            assert forall|o: AccountId, s: AccountId| #[trigger]
                self.allowance_of(o, s) == old(self).allowance_of(o, s) by {
                assert(mid.allowance_of(o, s) == old(self).allowance_of(o, s));
                assert(self.allowance_of(o, s) == mid.allowance_of(o, s));
            }
        }
        Ok(())
    }

    /// Grants `spender` the right to move up to `amount` out of `caller`'s
    /// balance, overwriting any prior allowance. Fails with
    /// `NotInitialized`, changing nothing, while the ledger is not
    /// initialized.
    pub fn approve(&mut self, caller: AccountId, spender: AccountId, amount: Balance) -> (r:
        Result<(), Error>)
        requires
            old(self).wf(),
        ensures
            final(self).wf(),
            !old(self).is_initialized() ==> {
                &&& r == Err::<(), Error>(Error::NotInitialized)
                &&& *final(self) == *old(self)
            },
            old(self).is_initialized() ==> {
                &&& r == Ok::<(), Error>(())
                &&& final(self).allowance_of(caller, spender) == amount
                &&& forall|o: AccountId, s: AccountId|
                    !(o == caller && s == spender)
                        ==> final(self).allowance_of(o, s) == old(self).allowance_of(o, s)
                &&& final(self).same_balances(old(self))
                &&& final(self).sum_of_balances() == old(self).sum_of_balances()
                &&& final(self).same_meta(old(self))
                &&& final(self).spec_events()
                    == old(self).spec_events().push(Event::Approval(caller, spender, amount))
            },
    {
        if !self.is_init() {
            return Err(Error::NotInitialized);
        }
        self.doApprove(caller, spender, amount)
    }

    /// Moves `amount` from `caller`'s balance to `to`'s. Fails with
    /// `NotInitialized` before initialization and with `InsufficientFunds`
    /// when `caller`'s balance cannot cover the amount; every failure
    /// leaves the ledger unchanged.
    pub fn transfer(&mut self, caller: AccountId, to: AccountId, amount: Balance) -> (r: Result<
        (),
        Error,
    >)
        requires
            old(self).wf(),
        ensures
            final(self).wf(),
            !old(self).is_initialized() ==> {
                &&& r == Err::<(), Error>(Error::NotInitialized)
                &&& *final(self) == *old(self)
            },
            old(self).is_initialized() && old(self).balance_of(caller) < amount ==> {
                &&& r == Err::<(), Error>(Error::InsufficientFunds)
                &&& *final(self) == *old(self)
            },
            old(self).is_initialized() && old(self).balance_of(caller) >= amount ==> {
                &&& r == Ok::<(), Error>(())
                &&& caller != to ==> {
                    &&& final(self).balance_of(caller) == old(self).balance_of(caller) - amount
                    &&& final(self).balance_of(to) == old(self).balance_of(to) + amount
                }
                &&& caller == to ==> final(self).balance_of(caller) == old(self).balance_of(
                    caller,
                )
                &&& forall|a: AccountId|
                    a != caller && a != to
                        ==> final(self).balance_of(a) == old(self).balance_of(a)
                &&& final(self).sum_of_balances() == old(self).sum_of_balances()
                &&& final(self).same_allowances(old(self))
                &&& final(self).same_meta(old(self))
                &&& final(self).spec_events()
                    == old(self).spec_events().push(Event::Transfer(caller, to, amount))
            },
    {
        if !self.is_init() {
            return Err(Error::NotInitialized);
        }
        self.doTransfer(caller, to, amount)
    }

    /// Delegated transfer: `caller` spends `amount` of the allowance that
    /// `from` granted it, then moves that amount from `from`'s balance to
    /// `to`'s. The allowance must cover the amount before any balance is
    /// read. When the allowance covers the amount but the balance does not,
    /// the allowance has already been decremented and is deliberately not
    /// restored — the failure is reported as `InsufficientFunds` with the
    /// reduced allowance left in place, exactly as stated below.
    pub fn transferFrom(
        &mut self,
        caller: AccountId,
        from: AccountId,
        to: AccountId,
        amount: Balance,
    ) -> (r: Result<(), Error>)
        requires
            old(self).wf(),
        ensures
            final(self).wf(),
            !old(self).is_initialized() ==> {
                &&& r == Err::<(), Error>(Error::NotInitialized)
                &&& *final(self) == *old(self)
            },
            old(self).is_initialized() && old(self).allowance_of(from, caller) < amount ==> {
                &&& r == Err::<(), Error>(Error::InsufficientAllowance)
                &&& *final(self) == *old(self)
            },
            old(self).is_initialized() && old(self).allowance_of(from, caller) >= amount ==> {
                &&& final(self).allowance_of(from, caller)
                    == old(self).allowance_of(from, caller) - amount
                &&& forall|o: AccountId, s: AccountId|
                    !(o == from && s == caller)
                        ==> final(self).allowance_of(o, s) == old(self).allowance_of(o, s)
                &&& final(self).same_meta(old(self))
                &&& old(self).balance_of(from) < amount ==> {
                    &&& r == Err::<(), Error>(Error::InsufficientFunds)
                    &&& final(self).same_balances(old(self))
                    &&& final(self).spec_events() == old(self).spec_events().push(
                        Event::Approval(
                            from,
                            caller,
                            (old(self).allowance_of(from, caller) - amount) as Balance,
                        ),
                    )
                }
                &&& old(self).balance_of(from) >= amount ==> {
                    &&& r == Ok::<(), Error>(())
                    &&& from != to ==> {
                        &&& final(self).balance_of(from) == old(self).balance_of(from) - amount
                        &&& final(self).balance_of(to) == old(self).balance_of(to) + amount
                    }
                    &&& from == to ==> final(self).balance_of(from) == old(self).balance_of(
                        from,
                    )
                    &&& forall|a: AccountId|
                        a != from && a != to
                            ==> final(self).balance_of(a) == old(self).balance_of(a)
                    &&& final(self).sum_of_balances() == old(self).sum_of_balances()
                    &&& final(self).spec_events() == old(self).spec_events().push(
                        Event::Approval(
                            from,
                            caller,
                            (old(self).allowance_of(from, caller) - amount) as Balance,
                        ),
                    ).push(Event::Transfer(from, to, amount))
                }
            },
    {
        if !self.is_init() {
            return Err(Error::NotInitialized);
        }
        match self.doSpendAllowance(from, caller, amount) {
            Ok(_) => {},
            Err(e) => {
                return Err(e);
            },
        }
        self.doTransfer(from, to, amount)
    }

    /// Despite its name, this overwrites the allowance of
    /// `(caller, spender)` with the raw `amount`, exactly as [`Self::approve`]
    /// does; it does not add `amount` to the current value.
    pub fn increaseAllowance(&mut self, caller: AccountId, spender: AccountId, amount: Balance)
        -> (r: Result<(), Error>)
        requires
            old(self).wf(),
        ensures
            final(self).wf(),
            !old(self).is_initialized() ==> {
                &&& r == Err::<(), Error>(Error::NotInitialized)
                &&& *final(self) == *old(self)
            },
            old(self).is_initialized() ==> {
                &&& r == Ok::<(), Error>(())
                &&& final(self).allowance_of(caller, spender) == amount
                &&& forall|o: AccountId, s: AccountId|
                    !(o == caller && s == spender)
                        ==> final(self).allowance_of(o, s) == old(self).allowance_of(o, s)
                &&& final(self).same_balances(old(self))
                &&& final(self).sum_of_balances() == old(self).sum_of_balances()
                &&& final(self).same_meta(old(self))
                &&& final(self).spec_events()
                    == old(self).spec_events().push(Event::Approval(caller, spender, amount))
            },
    {
        if !self.is_init() {
            return Err(Error::NotInitialized);
        }
        self.doApprove(caller, spender, amount)
    }

    /// Despite its name, this overwrites the allowance of
    /// `(caller, spender)` with the raw `amount`, exactly as [`Self::approve`]
    /// does; it does not subtract `amount` from the current value.
    pub fn decreaseAllowance(&mut self, caller: AccountId, spender: AccountId, amount: Balance)
        -> (r: Result<(), Error>)
        requires
            old(self).wf(),
        ensures
            final(self).wf(),
            !old(self).is_initialized() ==> {
                &&& r == Err::<(), Error>(Error::NotInitialized)
                &&& *final(self) == *old(self)
            },
            old(self).is_initialized() ==> {
                &&& r == Ok::<(), Error>(())
                &&& final(self).allowance_of(caller, spender) == amount
                &&& forall|o: AccountId, s: AccountId|
                    !(o == caller && s == spender)
                        ==> final(self).allowance_of(o, s) == old(self).allowance_of(o, s)
                &&& final(self).same_balances(old(self))
                &&& final(self).sum_of_balances() == old(self).sum_of_balances()
                &&& final(self).same_meta(old(self))
                &&& final(self).spec_events()
                    == old(self).spec_events().push(Event::Approval(caller, spender, amount))
            },
    {
        if !self.is_init() {
            return Err(Error::NotInitialized);
        }
        self.doApprove(caller, spender, amount)
    }

    /// Overwrites the token metadata and the initialization flag in one
    /// step. Used only by the genesis build path, which is how the flag can
    /// be raised without an `init` call.
    pub(crate) fn set_meta(
        &mut self,
        name: Vec<u8>,
        symbol: Vec<u8>,
        total_supply: Balance,
        init: bool,
    )
        requires
            old(self).store_ok(),
            name@.len() <= KEY_LIMIT,
            symbol@.len() <= KEY_LIMIT,
        ensures
            final(self).store_ok(),
            final(self).spec_name() == name@,
            final(self).spec_symbol() == symbol@,
            final(self).spec_total_supply() == total_supply,
            final(self).is_initialized() == init,
            final(self).same_balances(old(self)),
            final(self).same_allowances(old(self)),
            final(self).sum_of_balances() == old(self).sum_of_balances(),
            final(self).store_is_empty() == old(self).store_is_empty(),
            final(self).spec_events() == old(self).spec_events(),
    {
        self.name = name;
        self.symbol = symbol;
        self.total_supply = total_supply;
        self.initialized = init;
    }

    /// The declared total supply; zero before initialization.
    pub fn total_supply(&self) -> (r: Balance)
        ensures
            r == self.spec_total_supply(),
    {
        self.total_supply
    }

    /// Whether the one-time initialization has run.
    pub fn is_init(&self) -> (r: bool)
        ensures
            r == self.is_initialized(),
    {
        self.initialized
    }

    /// The token name fixed at initialization.
    pub fn name(&self) -> (r: &Vec<u8>)
        ensures
            r@ == self.spec_name(),
    {
        &self.name
    }

    /// The token symbol fixed at initialization.
    pub fn symbol(&self) -> (r: &Vec<u8>)
        ensures
            r@ == self.spec_symbol(),
    {
        &self.symbol
    }

    /// The notification records emitted so far, oldest first.
    pub fn events(&self) -> (r: &Vec<Event>)
        ensures
            r@ == self.spec_events(),
    {
        &self.events
    }
}

/// The total-supply invariant: in any well-formed ledger — and every
/// operation of this crate both requires and re-establishes
/// well-formedness — the balances sum to a non-negative value that never
/// exceeds the declared total supply.
pub proof fn lemma_supply_bound(p: &Pallet)
    requires
        p.wf(),
    ensures
        0 <= p.sum_of_balances() <= p.spec_total_supply(),
{
    lemma_sum_nonneg(p.balances@);
}

/// In a store with no entries, every balance and allowance reads zero.
pub proof fn lemma_empty_store_reads(p: &Pallet)
    requires
        p.store_is_empty(),
    ensures
        forall|a: AccountId| p.balance_of(a) == 0,
        forall|o: AccountId, s: AccountId| p.allowance_of(o, s) == 0,
        p.sum_of_balances() == 0,
{
}

} // verus!
