//! The ledger state and its operations.
//!
//! `Storage` holds the four state components: the balance map, the issuance
//! total, the block counter, and the event log. `BalancesPallet` is the
//! operation surface over it. The well-formedness predicate `wf` is the
//! conservation law — the issuance total equals the sum of all balances —
//! and every operation requires and preserves it.

use std::collections::HashMap;

use vstd::prelude::*;

use crate::sums::{
    lemma_map_sum_empty, lemma_map_sum_ge_element, lemma_map_sum_insert, lemma_map_sum_nonneg,
    map_sum,
};

verus! {

broadcast use vstd::std_specs::hash::group_hash_axioms;

/// Account identifier type.
pub type AccountId = u64;

/// Balance type.
pub type Balance = u128;

/// Block number type.
pub type BlockNumber = u32;

/// The error kinds an operation can report.
#[derive(Debug, Clone, Copy, PartialEq, Eq)]
pub enum Error {
    InsufficientBalance,
    AccountNotFound,
    Overflow,
    Underflow,
    InvalidValue,
}

/// A domain event, recorded once per successful mutating operation.
#[derive(Debug, Clone, Copy, PartialEq, Eq)]
pub enum Event {
    Transfer { from: AccountId, to: AccountId, amount: Balance },
    Deposit { who: AccountId, amount: Balance },
    Withdraw { who: AccountId, amount: Balance },
    NewBlock { number: BlockNumber },
}

/// The four state components of the ledger.
pub struct Storage {
    balances: HashMap<AccountId, Balance>,
    total_issuance: Balance,
    block_number: BlockNumber,
    events: Vec<Event>,
}

impl Storage {
    /// The balance map, as a mathematical map.
    pub closed spec fn spec_balances(&self) -> Map<AccountId, Balance> {
        self.balances@
    }

    /// The issuance total.
    pub closed spec fn spec_issuance(&self) -> Balance {
        self.total_issuance
    }

    /// The block counter.
    pub closed spec fn spec_block_number(&self) -> BlockNumber {
        self.block_number
    }

    /// The event log, as a sequence in append order.
    pub closed spec fn spec_events(&self) -> Seq<Event> {
        self.events@
    }

    /// Conservation law: the issuance total equals the sum of all balances.
    pub open spec fn wf(&self) -> bool {
        self.spec_issuance() as int == map_sum(self.spec_balances())
    }

    /// A fresh store: no balances, zero issuance, block zero, no events.
    pub fn new() -> (s: Self)
        ensures
            s.spec_balances() == Map::<AccountId, Balance>::empty(),
            s.spec_issuance() == 0,
            s.spec_block_number() == 0,
            s.spec_events() == Seq::<Event>::empty(),
            s.wf(),
    {
        let s = Storage {
            balances: HashMap::new(),
            total_issuance: 0,
            block_number: 0,
            events: Vec::new(),
        };
        proof {
            lemma_map_sum_empty();
        }
        s
    }
}

impl Default for Storage {
    fn default() -> (s: Self)
        ensures
            s.spec_balances() == Map::<AccountId, Balance>::empty(),
            s.spec_issuance() == 0,
            s.spec_block_number() == 0,
            s.spec_events() == Seq::<Event>::empty(),
            s.wf(),
    {
        Storage::new()
    }
}

/// The ledger operation surface.
pub struct BalancesPallet {
    storage: Storage,
}

impl BalancesPallet {
    /// The balance map, as a mathematical map.
    pub closed spec fn spec_balances(&self) -> Map<AccountId, Balance> {
        self.storage.spec_balances()
    }

    /// The issuance total.
    pub closed spec fn spec_issuance(&self) -> Balance {
        self.storage.spec_issuance()
    }

    /// The block counter.
    pub closed spec fn spec_block_number(&self) -> BlockNumber {
        self.storage.spec_block_number()
    }

    /// The event log, as a sequence in append order.
    pub closed spec fn spec_events(&self) -> Seq<Event> {
        self.storage.spec_events()
    }

    /// The balance of an account; an absent account holds zero.
    pub open spec fn spec_balance_of(&self, who: AccountId) -> Balance {
        if self.spec_balances().contains_key(who) {
            self.spec_balances()[who]
        } else {
            0
        }
    }

    /// Conservation law: the issuance total equals the sum of all balances.
    pub open spec fn wf(&self) -> bool {
        self.spec_issuance() as int == map_sum(self.spec_balances())
    }

    /// A fresh ledger with empty state.
    pub fn new() -> (p: Self)
        ensures
            p.spec_balances() == Map::<AccountId, Balance>::empty(),
            p.spec_issuance() == 0,
            p.spec_block_number() == 0,
            p.spec_events() == Seq::<Event>::empty(),
            p.wf(),
    {
        BalancesPallet { storage: Storage::new() }
    }

    /// Append one event to the log, leaving the rest of the state unchanged.
    fn emit_event(&mut self, event: Event)
        ensures
            final(self).spec_events() == old(self).spec_events().push(event),
            final(self).spec_balances() == old(self).spec_balances(),
            final(self).spec_issuance() == old(self).spec_issuance(),
            final(self).spec_block_number() == old(self).spec_block_number(),
    {
        self.storage.events.push(event);
    }

    /// Deposit tokens to an account, creating it if absent.
    ///
    /// Adds `amount` to the account's balance and to the issuance total,
    /// both overflow-checked before either is written. Succeeds exactly when
    /// the issuance total has room for `amount` (under the conservation law
    /// no single balance exceeds the total, so the balance then has room
    /// too); otherwise reports `Overflow` and changes nothing.
    pub fn deposit(&mut self, who: AccountId, amount: Balance) -> (r: Result<(), Error>)
        requires
            old(self).wf(),
        ensures
            final(self).wf(),
            r is Err ==> *final(self) == *old(self),
            old(self).spec_issuance() + amount <= u128::MAX ==> {
                &&& r == Ok::<(), Error>(())
                &&& final(self).spec_balances() == old(self).spec_balances().insert(
                    who,
                    (old(self).spec_balance_of(who) + amount) as Balance,
                )
                &&& final(self).spec_issuance() == old(self).spec_issuance() + amount
                &&& final(self).spec_events() == old(self).spec_events().push(
                    Event::Deposit { who, amount },
                )
                &&& final(self).spec_block_number() == old(self).spec_block_number()
            },
            old(self).spec_issuance() + amount > u128::MAX ==> r == Err::<(), Error>(
                Error::Overflow,
            ),
    {
        let balance = match self.storage.balances.get(&who) {
            Some(b) => *b,
            None => 0,
        };
        proof {
            if self.spec_balances().contains_key(who) {
                lemma_map_sum_ge_element(self.spec_balances(), who);
            } else {
                lemma_map_sum_nonneg(self.spec_balances());
            }
        }
        let new_balance = match balance.checked_add(amount) {
            Some(v) => v,
            None => {
                return Err(Error::Overflow);
            },
        };
        let new_total = match self.storage.total_issuance.checked_add(amount) {
            Some(v) => v,
            None => {
                return Err(Error::Overflow);
            },
        };
        self.storage.balances.insert(who, new_balance);
        self.storage.total_issuance = new_total;
        proof {
            lemma_map_sum_insert(old(self).spec_balances(), who, new_balance);
        }
        self.emit_event(Event::Deposit { who, amount });
        Ok(())
    }

    /// Withdraw tokens from an account.
    ///
    /// Reports `AccountNotFound` for an account with no entry and
    /// `InsufficientBalance` when the balance is short, both before any
    /// mutation. Otherwise subtracts `amount` from the balance and from the
    /// issuance total; the defensive `Underflow` checks at the arithmetic
    /// level are provably unreachable, so the contract has no such case.
    pub fn withdraw(&mut self, who: AccountId, amount: Balance) -> (r: Result<(), Error>)
        requires
            old(self).wf(),
        ensures
            final(self).wf(),
            r is Err ==> *final(self) == *old(self),
            !old(self).spec_balances().contains_key(who) ==> r == Err::<(), Error>(
                Error::AccountNotFound,
            ),
            old(self).spec_balances().contains_key(who) && old(self).spec_balances()[who] < amount
                ==> r == Err::<(), Error>(Error::InsufficientBalance),
            old(self).spec_balances().contains_key(who) && old(self).spec_balances()[who] >= amount
                ==> {
                &&& r == Ok::<(), Error>(())
                &&& final(self).spec_balances() == old(self).spec_balances().insert(
                    who,
                    (old(self).spec_balances()[who] - amount) as Balance,
                )
                &&& final(self).spec_issuance() == old(self).spec_issuance() - amount
                &&& final(self).spec_events() == old(self).spec_events().push(
                    Event::Withdraw { who, amount },
                )
                &&& final(self).spec_block_number() == old(self).spec_block_number()
            },
    {
        let balance = match self.storage.balances.get(&who) {
            Some(b) => *b,
            None => {
                return Err(Error::AccountNotFound);
            },
        };
        if balance < amount {
            return Err(Error::InsufficientBalance);
        }
        proof {
            lemma_map_sum_ge_element(self.spec_balances(), who);
        }
        let new_balance = match balance.checked_sub(amount) {
            Some(v) => v,
            None => {
                return Err(Error::Underflow);
            },
        };
        let new_total = match self.storage.total_issuance.checked_sub(amount) {
            Some(v) => v,
            None => {
                return Err(Error::Underflow);
            },
        };
        self.storage.balances.insert(who, new_balance);
        self.storage.total_issuance = new_total;
        proof {
            lemma_map_sum_insert(old(self).spec_balances(), who, new_balance);
        }
        self.emit_event(Event::Withdraw { who, amount });
        Ok(())
    }

    /// Transfer tokens between accounts, creating the destination if absent.
    ///
    /// Reports `AccountNotFound` for a source with no entry and
    /// `InsufficientBalance` when the source balance is short, both before
    /// any mutation. The credit is overflow-checked: it can only overflow on
    /// a self-transfer, since otherwise the conservation law bounds the two
    /// balances together by the issuance total. A self-transfer nets to
    /// zero. The issuance total is unchanged in every case.
    pub fn transfer(&mut self, from: AccountId, to: AccountId, amount: Balance) -> (r: Result<
        (),
        Error,
    >)
        requires
            old(self).wf(),
        ensures
            final(self).wf(),
            r is Err ==> *final(self) == *old(self),
            !old(self).spec_balances().contains_key(from) ==> r == Err::<(), Error>(
                Error::AccountNotFound,
            ),
            old(self).spec_balances().contains_key(from) && old(self).spec_balances()[from]
                < amount ==> r == Err::<(), Error>(Error::InsufficientBalance),
            old(self).spec_balances().contains_key(from) && old(self).spec_balances()[from]
                >= amount && old(self).spec_balance_of(to) + amount > u128::MAX ==> r == Err::<
                (),
                Error,
            >(Error::Overflow),
            old(self).spec_balances().contains_key(from) && old(self).spec_balances()[from]
                >= amount && old(self).spec_balance_of(to) + amount <= u128::MAX ==> {
                &&& r == Ok::<(), Error>(())
                &&& from != to ==> final(self).spec_balances() == old(self).spec_balances().insert(
                    to,
                    (old(self).spec_balance_of(to) + amount) as Balance,
                ).insert(from, (old(self).spec_balances()[from] - amount) as Balance)
                &&& from == to ==> final(self).spec_balances() == old(self).spec_balances()
                &&& final(self).spec_issuance() == old(self).spec_issuance()
                &&& final(self).spec_events() == old(self).spec_events().push(
                    Event::Transfer { from, to, amount },
                )
                &&& final(self).spec_block_number() == old(self).spec_block_number()
            },
    {
        let from_balance = match self.storage.balances.get(&from) {
            Some(b) => *b,
            None => {
                return Err(Error::AccountNotFound);
            },
        };
        if from_balance < amount {
            return Err(Error::InsufficientBalance);
        }
        let to_balance = match self.storage.balances.get(&to) {
            Some(b) => *b,
            None => 0,
        };
        let new_to_balance = match to_balance.checked_add(amount) {
            Some(v) => v,
            None => {
                return Err(Error::Overflow);
            },
        };
        if from == to {
            let restored = match new_to_balance.checked_sub(amount) {
                Some(v) => v,
                None => {
                    return Err(Error::Underflow);
                },
            };
            self.storage.balances.insert(from, restored);
            proof {
                lemma_map_sum_insert(old(self).spec_balances(), from, restored);
                assert(old(self).spec_balances().insert(from, restored) =~= old(
                    self,
                ).spec_balances());
            }
        } else {
            let new_from_balance = match from_balance.checked_sub(amount) {
                Some(v) => v,
                None => {
                    return Err(Error::Underflow);
                },
            };
            self.storage.balances.insert(to, new_to_balance);
            self.storage.balances.insert(from, new_from_balance);
            proof {
                lemma_map_sum_insert(old(self).spec_balances(), to, new_to_balance);
                lemma_map_sum_insert(
                    old(self).spec_balances().insert(to, new_to_balance),
                    from,
                    new_from_balance,
                );
            }
        }
        self.emit_event(Event::Transfer { from, to, amount });
        Ok(())
    }

    /// The stored balance of an account, or zero if it was never funded.
    pub fn balance_of(&self, who: AccountId) -> (r: Balance)
        ensures
            r == self.spec_balance_of(who),
    {
        match self.storage.balances.get(&who) {
            Some(b) => *b,
            None => 0,
        }
    }

    /// The current issuance total.
    pub fn total_issuance(&self) -> (r: Balance)
        ensures
            r == self.spec_issuance(),
    {
        self.storage.total_issuance
    }

    /// Advance the block counter by exactly one and record a `NewBlock`
    /// event carrying the new value. Balances and issuance are untouched.
    pub fn next_block(&mut self)
        requires
            old(self).spec_block_number() < u32::MAX,
        ensures
            final(self).spec_block_number() == old(self).spec_block_number() + 1,
            final(self).spec_events() == old(self).spec_events().push(
                Event::NewBlock { number: (old(self).spec_block_number() + 1) as BlockNumber },
            ),
            final(self).spec_balances() == old(self).spec_balances(),
            final(self).spec_issuance() == old(self).spec_issuance(),
            old(self).wf() ==> final(self).wf(),
    {
        self.storage.block_number = self.storage.block_number + 1;
        self.emit_event(Event::NewBlock { number: self.storage.block_number });
    }

    /// The current block counter.
    pub fn block_number(&self) -> (r: BlockNumber)
        ensures
            r == self.spec_block_number(),
    {
        self.storage.block_number
    }

    /// A snapshot copy of the event log, in append order. The log itself is
    /// not cleared.
    pub fn events(&self) -> (r: Vec<Event>)
        ensures
            r@ == self.spec_events(),
    {
        let mut r: Vec<Event> = Vec::new();
        let n = self.storage.events.len();
        let mut i: usize = 0;
        while i < n
            invariant
                i <= n,
                n == self.storage.events@.len(),
                r@ == self.storage.events@.subrange(0, i as int),
            decreases n - i,
        {
            r.push(self.storage.events[i]);
            proof {
                assert(r@ =~= self.storage.events@.subrange(0, i + 1));
            }
            i = i + 1;
        }
        proof {
            assert(self.storage.events@.subrange(0, n as int) =~= self.storage.events@);
        }
        r
    }
}

impl Default for BalancesPallet {
    fn default() -> (p: Self)
        ensures
            p.spec_balances() == Map::<AccountId, Balance>::empty(),
            p.spec_issuance() == 0,
            p.spec_block_number() == 0,
            p.spec_events() == Seq::<Event>::empty(),
            p.wf(),
    {
        BalancesPallet::new()
    }
}

/// Non-negativity: the balance of every account is non-negative in every
/// state; balances are unsigned and checked subtraction never commits a
/// value below zero.
pub proof fn lemma_balance_non_negative(p: &BalancesPallet, who: AccountId)
    ensures
        p.spec_balance_of(who) >= 0,
{
}

/// Under the conservation law no single balance exceeds the issuance total.
pub proof fn lemma_balance_le_issuance(p: &BalancesPallet, who: AccountId)
    requires
        p.wf(),
    ensures
        p.spec_balance_of(who) <= p.spec_issuance(),
{
    if p.spec_balances().contains_key(who) {
        lemma_map_sum_ge_element(p.spec_balances(), who);
    } else {
        lemma_map_sum_nonneg(p.spec_balances());
    }
}

} // verus!
