//! The per-account record of the last access, and the violation rule.
//!
//! Transactions are taken in block order. Each touch of an account is held
//! against the record that the previous touch of that account left, and then
//! replaces it. A touch violates where its priority is higher than the recorded
//! one and at least one of the two accesses is a write.

use crate::account::{Account, TransactionSignature};
use crate::account_map::AccountMap;
use crate::report::ViolationReport;
use vstd::prelude::*;

verus! {

/// How a transaction touches an account.
#[derive(Clone, Copy, Debug, PartialEq, Eq, Structural)]
pub enum LastAccess {
    Read,
    Write,
}

/// What is remembered of the last transaction that touched an account.
#[derive(Clone, Copy, Debug, PartialEq, Eq, Structural)]
pub struct LastAccessPriority {
    pub last_access: LastAccess,
    pub priority: u64,
}

/// One violation: a touch of `account` with priority `new_priority` after a
/// conflicting touch with the lower priority `old_priority`.
#[derive(Clone, Copy, Debug, PartialEq, Eq)]
pub struct Violation {
    pub account: Account,
    pub old_priority: u64,
    pub new_priority: u64,
}

/// A transaction as the tracker consumes it.
#[derive(Clone, Debug, PartialEq, Eq)]
pub struct Transaction {
    pub signature: TransactionSignature,
    pub priority: u64,
    pub writable_accounts: Vec<Account>,
    pub readonly_accounts: Vec<Account>,
}

/// The mathematical content of a [`Transaction`].
pub struct TransactionView {
    pub signature: TransactionSignature,
    pub priority: u64,
    pub writable_accounts: Seq<Account>,
    pub readonly_accounts: Seq<Account>,
}

impl View for Transaction {
    type V = TransactionView;

    open spec fn view(&self) -> TransactionView {
        TransactionView {
            signature: self.signature,
            priority: self.priority,
            writable_accounts: self.writable_accounts@,
            readonly_accounts: self.readonly_accounts@,
        }
    }
}

/// Whether a touch with `priority` violates against what is recorded for the
/// account: there is a record, its priority is strictly lower, and the touch
/// is a write or the recorded access was one.
pub open spec fn is_violation(
    record: Option<LastAccessPriority>,
    access: LastAccess,
    priority: u64,
) -> bool {
    match record {
        None => false,
        Some(last) => last.priority < priority && (access == LastAccess::Write || last.last_access
            == LastAccess::Write),
    }
}

/// The state of one pass over a block.
pub struct TrackerState {
    /// The last access of every account touched so far.
    pub last_access: Map<Account, LastAccessPriority>,
    /// The violations found so far, in the order found.
    pub violations: Seq<Violation>,
    /// The signatures of the transactions that violated, in block order.
    pub violating_transactions: Seq<TransactionSignature>,
}

impl TrackerState {
    /// The state before the first transaction.
    pub open spec fn empty() -> TrackerState {
        TrackerState {
            last_access: Map::empty(),
            violations: Seq::empty(),
            violating_transactions: Seq::empty(),
        }
    }

    /// The record of `account`, if it was touched.
    pub open spec fn record_of(self, account: Account) -> Option<LastAccessPriority> {
        if self.last_access.contains_key(account) {
            Some(self.last_access[account])
        } else {
            None
        }
    }

    /// The state after one touch of `account`: a violation is noted where the
    /// rule finds one, and the record is replaced in either case.
    pub open spec fn touch(
        self,
        account: Account,
        access: LastAccess,
        priority: u64,
    ) -> TrackerState {
        TrackerState {
            last_access: self.last_access.insert(
                account,
                LastAccessPriority { last_access: access, priority },
            ),
            violations: if is_violation(self.record_of(account), access, priority) {
                self.violations.push(
                    Violation {
                        account,
                        old_priority: self.last_access[account].priority,
                        new_priority: priority,
                    },
                )
            } else {
                self.violations
            },
            violating_transactions: self.violating_transactions,
        }
    }

    /// The state after touching each of `accounts` in turn.
    pub open spec fn touch_each(
        self,
        accounts: Seq<Account>,
        access: LastAccess,
        priority: u64,
    ) -> TrackerState
        decreases accounts.len(),
    {
        if accounts.len() == 0 {
            self
        } else {
            self.touch_each(accounts.drop_last(), access, priority).touch(
                accounts.last(),
                access,
                priority,
            )
        }
    }

    /// The state after one transaction: its writes, then its reads, and its
    /// signature noted once where any of them violated.
    pub open spec fn apply(self, transaction: TransactionView) -> TrackerState {
        let touched = self.touch_each(
            transaction.writable_accounts,
            LastAccess::Write,
            transaction.priority,
        ).touch_each(transaction.readonly_accounts, LastAccess::Read, transaction.priority);
        TrackerState {
            violating_transactions: if touched.violations.len() > self.violations.len() {
                self.violating_transactions.push(transaction.signature)
            } else {
                self.violating_transactions
            },
            ..touched
        }
    }

    /// The state after each of `transactions` in turn.
    pub open spec fn apply_each(self, transactions: Seq<TransactionView>) -> TrackerState
        decreases transactions.len(),
    {
        if transactions.len() == 0 {
            self
        } else {
            self.apply_each(transactions.drop_last()).apply(transactions.last())
        }
    }
}

/// Touches add violations and nothing else: the violations already found stay
/// in front, and no signature is noted.
pub proof fn lemma_touch_each_extends(
    state: TrackerState,
    accounts: Seq<Account>,
    access: LastAccess,
    priority: u64,
)
    ensures
        state.violations.is_prefix_of(state.touch_each(accounts, access, priority).violations),
        state.touch_each(accounts, access, priority).violating_transactions
            == state.violating_transactions,
    decreases accounts.len(),
{
    if accounts.len() > 0 {
        lemma_touch_each_extends(state, accounts.drop_last(), access, priority);
    }
}

/// The tracker of one pass over a block.
pub struct AccessTracker {
    last_access: AccountMap<LastAccessPriority>,
    violations: Vec<Violation>,
    violating_transactions: Vec<TransactionSignature>,
}

impl View for AccessTracker {
    type V = TrackerState;

    closed spec fn view(&self) -> TrackerState {
        TrackerState {
            last_access: self.last_access@,
            violations: self.violations@,
            violating_transactions: self.violating_transactions@,
        }
    }
}

impl AccessTracker {
    /// A tracker that has seen no transaction.
    pub fn new() -> (tracker: AccessTracker)
        ensures
            tracker@ == TrackerState::empty(),
    {
        AccessTracker {
            last_access: AccountMap::new(),
            violations: Vec::new(),
            violating_transactions: Vec::new(),
        }
    }

    /// What is recorded for `account`.
    pub fn last_access(&self, account: &Account) -> (r: Option<LastAccessPriority>)
        ensures
            r == self@.record_of(*account),
    {
        match self.last_access.get(account) {
            Some(last) => Some(*last),
            None => None,
        }
    }

    /// The violations found so far, in the order found.
    pub fn violations(&self) -> (r: &Vec<Violation>)
        ensures
            r@ == self@.violations,
    {
        &self.violations
    }

    /// The signatures of the transactions that violated, in block order.
    pub fn violating_transactions(&self) -> (r: &Vec<TransactionSignature>)
        ensures
            r@ == self@.violating_transactions,
    {
        &self.violating_transactions
    }

    /// Ends the pass: what was found, as a report.
    pub fn into_report(self) -> (report: ViolationReport)
        ensures
            report.violations@ == self@.violations,
            report.violating_transactions@ == self@.violating_transactions,
    {
        ViolationReport {
            violations: self.violations,
            violating_transactions: self.violating_transactions,
        }
    }

    /// Records one touch of `account` and says whether it violated.
    pub fn touch(&mut self, account: Account, access: LastAccess, priority: u64) -> (violated: bool)
        ensures
            final(self)@ == old(self)@.touch(account, access, priority),
            violated == is_violation(old(self)@.record_of(account), access, priority),
    {
        let violated = match self.last_access.get(&account) {
            Some(last) => {
                let conflicting = access == LastAccess::Write || last.last_access
                    == LastAccess::Write;
                if conflicting && last.priority < priority {
                    self.violations.push(
                        Violation { account, old_priority: last.priority, new_priority: priority },
                    );
                    true
                } else {
                    false
                }
            },
            None => false,
        };
        self.last_access.insert(account, LastAccessPriority { last_access: access, priority });
        violated
    }

    /// Records a touch of each of `accounts` in turn and says whether any
    /// violated.
    pub fn touch_each(
        &mut self,
        accounts: &Vec<Account>,
        access: LastAccess,
        priority: u64,
    ) -> (violated: bool)
        ensures
            final(self)@ == old(self)@.touch_each(accounts@, access, priority),
            final(self)@.violations.len() >= old(self)@.violations.len(),
            violated == (final(self)@.violations.len() > old(self)@.violations.len()),
    {
        let mut violated = false;
        let mut i: usize = 0;
        while i < accounts.len()
            invariant
                i <= accounts.len(),
                self@ == old(self)@.touch_each(accounts@.take(i as int), access, priority),
                self@.violations.len() >= old(self)@.violations.len(),
                violated == (self@.violations.len() > old(self)@.violations.len()),
            decreases accounts.len() - i,
        {
            assert(accounts@.take(i + 1).drop_last() =~= accounts@.take(i as int));
            if self.touch(accounts[i], access, priority) {
                violated = true;
            }
            i += 1;
        }
        assert(accounts@.take(i as int) =~= accounts@);
        violated
    }

    /// Takes one transaction: its writes, then its reads. Says whether it
    /// violated; its signature is then noted.
    pub fn process(&mut self, transaction: &Transaction) -> (violated: bool)
        ensures
            final(self)@ == old(self)@.apply(transaction@),
            violated == (final(self)@.violations.len() > old(self)@.violations.len()),
    {
        let wrote = self.touch_each(
            &transaction.writable_accounts,
            LastAccess::Write,
            transaction.priority,
        );
        let read = self.touch_each(
            &transaction.readonly_accounts,
            LastAccess::Read,
            transaction.priority,
        );
        let violated = wrote || read;
        if violated {
            self.violating_transactions.push(transaction.signature);
        }
        proof {
            let written = old(self)@.touch_each(
                transaction@.writable_accounts,
                LastAccess::Write,
                transaction.priority,
            );
            lemma_touch_each_extends(
                old(self)@,
                transaction@.writable_accounts,
                LastAccess::Write,
                transaction.priority,
            );
            lemma_touch_each_extends(
                written,
                transaction@.readonly_accounts,
                LastAccess::Read,
                transaction.priority,
            );
        }
        violated
    }
}

} // verus!
