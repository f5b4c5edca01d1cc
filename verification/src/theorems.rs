//! What the library guarantees beyond the contracts of its functions: laws of
//! the violation rule, of the priority of a transaction, of a whole pass and of
//! the report.

use crate::account::Account;
use crate::block::{block_outcome, parsed_accounts, resolved_block, BlockTransaction};
use crate::priority::{
    decoded_directive, instruction_priority, is_compute_budget, request_units_priority,
    resolved_priority, ComputeBudgetDirective, Instruction, PriorityError,
};
use crate::report::{
    decimal_digit, decimal_text, entries_of, lemma_violated_accounts_have_entries,
    violated_accounts,
};
use crate::tracker::{
    is_violation, lemma_touch_each_extends, LastAccess, LastAccessPriority, TrackerState,
    TransactionView, Violation,
};
use vstd::prelude::*;

verus! {

// The rule, touch by touch

/// The first touch of an account, read or write, never violates.
pub proof fn lemma_first_touch_never_violates(
    state: TrackerState,
    account: Account,
    access: LastAccess,
    priority: u64,
)
    requires
        !state.last_access.contains_key(account),
    ensures
        !is_violation(state.record_of(account), access, priority),
        state.touch(account, access, priority).violations == state.violations,
{
}

/// A write with a priority strictly above the recorded one always violates,
/// whether the recorded access was a read or a write. The violation pairs the
/// recorded priority with the new one.
pub proof fn lemma_higher_write_always_violates(
    state: TrackerState,
    account: Account,
    priority: u64,
)
    requires
        state.last_access.contains_key(account),
        state.last_access[account].priority < priority,
    ensures
        is_violation(state.record_of(account), LastAccess::Write, priority),
        state.touch(account, LastAccess::Write, priority).violations == state.violations.push(
            Violation {
                account,
                old_priority: state.last_access[account].priority,
                new_priority: priority,
            },
        ),
{
}

/// A read with a priority strictly above that of a recorded write violates.
pub proof fn lemma_higher_read_after_write_violates(
    state: TrackerState,
    account: Account,
    priority: u64,
)
    requires
        state.last_access.contains_key(account),
        state.last_access[account].last_access == LastAccess::Write,
        state.last_access[account].priority < priority,
    ensures
        is_violation(state.record_of(account), LastAccess::Read, priority),
        state.touch(account, LastAccess::Read, priority).violations == state.violations.push(
            Violation {
                account,
                old_priority: state.last_access[account].priority,
                new_priority: priority,
            },
        ),
{
}

/// A read that follows a read never violates, whatever the two priorities.
pub proof fn lemma_read_after_read_never_violates(
    state: TrackerState,
    account: Account,
    priority: u64,
)
    requires
        state.last_access.contains_key(account),
        state.last_access[account].last_access == LastAccess::Read,
    ensures
        !is_violation(state.record_of(account), LastAccess::Read, priority),
        state.touch(account, LastAccess::Read, priority).violations == state.violations,
{
}

// The records

/// After touching each of `accounts`, each of them has the record of this
/// touch, and every other account the record it had.
pub proof fn lemma_records_after_touches(
    state: TrackerState,
    accounts: Seq<Account>,
    access: LastAccess,
    priority: u64,
    account: Account,
)
    ensures
        state.touch_each(accounts, access, priority).record_of(account) == if accounts.contains(
            account,
        ) {
            Some(LastAccessPriority { last_access: access, priority })
        } else {
            state.record_of(account)
        },
    decreases accounts.len(),
{
    if accounts.len() > 0 {
        let before = accounts.drop_last();
        lemma_records_after_touches(state, before, access, priority, account);
        if accounts.contains(account) && accounts.last() != account {
            let k = choose|k: int| 0 <= k < accounts.len() && accounts[k] == account;
            assert(before[k] == account);
        }
    }
}

/// The record of an account is that of the last transaction that touched it:
/// after a transaction, an account that it reads has a read record with its
/// priority, one that it only writes a write record with its priority, and one
/// that it does not touch the record it had.
pub proof fn lemma_records_after_transaction(
    state: TrackerState,
    transaction: TransactionView,
    account: Account,
)
    ensures
        state.apply(transaction).record_of(account) == if transaction.readonly_accounts.contains(
            account,
        ) {
            Some(
                LastAccessPriority {
                    last_access: LastAccess::Read,
                    priority: transaction.priority,
                },
            )
        } else if transaction.writable_accounts.contains(account) {
            Some(
                LastAccessPriority {
                    last_access: LastAccess::Write,
                    priority: transaction.priority,
                },
            )
        } else {
            state.record_of(account)
        },
{
    let written = state.touch_each(
        transaction.writable_accounts,
        LastAccess::Write,
        transaction.priority,
    );
    lemma_records_after_touches(
        state,
        transaction.writable_accounts,
        LastAccess::Write,
        transaction.priority,
        account,
    );
    lemma_records_after_touches(
        written,
        transaction.readonly_accounts,
        LastAccess::Read,
        transaction.priority,
        account,
    );
}

// A whole pass

/// No transaction has a higher priority than one before it.
pub open spec fn priorities_non_increasing(transactions: Seq<TransactionView>) -> bool {
    forall|i: int, j: int|
        0 <= i <= j < transactions.len() ==> transactions[i].priority
            >= transactions[j].priority
}

/// Every record in `state` has at least priority `floor`.
pub open spec fn records_at_least(state: TrackerState, floor: u64) -> bool {
    forall|account: Account| #[trigger]
        state.last_access.contains_key(account) ==> state.last_access[account].priority >= floor
}

proof fn lemma_touch_each_below_records(
    state: TrackerState,
    accounts: Seq<Account>,
    access: LastAccess,
    priority: u64,
)
    requires
        records_at_least(state, priority),
    ensures
        state.touch_each(accounts, access, priority).violations == state.violations,
        records_at_least(state.touch_each(accounts, access, priority), priority),
    decreases accounts.len(),
{
    if accounts.len() > 0 {
        lemma_touch_each_below_records(state, accounts.drop_last(), access, priority);
    }
}

proof fn lemma_apply_below_records(state: TrackerState, transaction: TransactionView)
    requires
        records_at_least(state, transaction.priority),
    ensures
        state.apply(transaction).violations == state.violations,
        state.apply(transaction).violating_transactions == state.violating_transactions,
        records_at_least(state.apply(transaction), transaction.priority),
{
    let priority = transaction.priority;
    let written = state.touch_each(transaction.writable_accounts, LastAccess::Write, priority);
    lemma_touch_each_below_records(
        state,
        transaction.writable_accounts,
        LastAccess::Write,
        priority,
    );
    lemma_touch_each_below_records(
        written,
        transaction.readonly_accounts,
        LastAccess::Read,
        priority,
    );
    lemma_touch_each_extends(state, transaction.writable_accounts, LastAccess::Write, priority);
    lemma_touch_each_extends(written, transaction.readonly_accounts, LastAccess::Read, priority);
}

/// Transactions whose priorities never rise add no violation to a state whose
/// records are all at least as high as the first of them, whichever accounts
/// they touch and however they touch them.
pub proof fn lemma_non_increasing_priorities_add_no_violation(
    state: TrackerState,
    transactions: Seq<TransactionView>,
)
    requires
        priorities_non_increasing(transactions),
        transactions.len() > 0 ==> records_at_least(state, transactions[0].priority),
    ensures
        state.apply_each(transactions).violations == state.violations,
        state.apply_each(transactions).violating_transactions == state.violating_transactions,
        transactions.len() > 0 ==> records_at_least(
            state.apply_each(transactions),
            transactions.last().priority,
        ),
    decreases transactions.len(),
{
    if transactions.len() > 0 {
        let before = transactions.drop_last();
        lemma_non_increasing_priorities_add_no_violation(state, before);
        lemma_apply_below_records(state.apply_each(before), transactions.last());
    }
}

/// A block whose priorities never rise has no violation: from the first
/// transaction on, a sequence of non-increasing priorities yields none, on a
/// single account as on many, in any pattern of reads and writes.
pub proof fn lemma_non_increasing_priorities_never_violate(transactions: Seq<TransactionView>)
    requires
        priorities_non_increasing(transactions),
    ensures
        TrackerState::empty().apply_each(transactions).violations.len() == 0,
        TrackerState::empty().apply_each(transactions).violating_transactions.len() == 0,
{
    lemma_non_increasing_priorities_add_no_violation(TrackerState::empty(), transactions);
}

/// In every violation of `state`, the new priority is strictly above the old.
pub open spec fn violations_rise(state: TrackerState) -> bool {
    forall|i: int|
        0 <= i < state.violations.len() ==> (#[trigger] state.violations[i]).old_priority
            < state.violations[i].new_priority
}

proof fn lemma_touches_keep_violations_rising(
    state: TrackerState,
    accounts: Seq<Account>,
    access: LastAccess,
    priority: u64,
)
    requires
        violations_rise(state),
    ensures
        violations_rise(state.touch_each(accounts, access, priority)),
    decreases accounts.len(),
{
    if accounts.len() > 0 {
        lemma_touches_keep_violations_rising(state, accounts.drop_last(), access, priority);
    }
}

/// Every violation that a pass records pairs a lower priority with a higher
/// one that came after it.
pub proof fn lemma_every_violation_rises(transactions: Seq<TransactionView>)
    ensures
        violations_rise(TrackerState::empty().apply_each(transactions)),
    decreases transactions.len(),
{
    if transactions.len() > 0 {
        let last = transactions.last();
        lemma_every_violation_rises(transactions.drop_last());
        let middle = TrackerState::empty().apply_each(transactions.drop_last());
        lemma_touches_keep_violations_rising(
            middle,
            last.writable_accounts,
            LastAccess::Write,
            last.priority,
        );
        lemma_touches_keep_violations_rising(
            middle.touch_each(last.writable_accounts, LastAccess::Write, last.priority),
            last.readonly_accounts,
            LastAccess::Read,
            last.priority,
        );
    }
}

/// A pass notes no signature without a violation, and at most one for each:
/// the violating transactions are never more than the violations, and there
/// are none exactly when there is no violation.
pub proof fn lemma_violating_transactions_have_violations(transactions: Seq<TransactionView>)
    ensures
        TrackerState::empty().apply_each(transactions).violating_transactions.len()
            <= TrackerState::empty().apply_each(transactions).violations.len(),
        TrackerState::empty().apply_each(transactions).violating_transactions.len() == 0
            <==> TrackerState::empty().apply_each(transactions).violations.len() == 0,
    decreases transactions.len(),
{
    if transactions.len() > 0 {
        let before = transactions.drop_last();
        let last = transactions.last();
        lemma_violating_transactions_have_violations(before);
        let middle = TrackerState::empty().apply_each(before);
        let written = middle.touch_each(last.writable_accounts, LastAccess::Write, last.priority);
        lemma_touch_each_extends(
            middle,
            last.writable_accounts,
            LastAccess::Write,
            last.priority,
        );
        lemma_touch_each_extends(written, last.readonly_accounts, LastAccess::Read, last.priority);
    }
}

// The priority of a transaction

/// The first instruction that says anything of the priority decides it: the
/// instructions after it are not looked at.
pub proof fn lemma_first_directive_decides(instructions: Seq<Instruction>, at: int)
    requires
        0 <= at < instructions.len(),
        forall|i: int|
            0 <= i < at ==> instruction_priority(#[trigger] instructions[i]) == Ok::<
                Option<u64>,
                PriorityError,
            >(None),
    ensures
        match instruction_priority(instructions[at]) {
            Ok(Some(priority)) => resolved_priority(instructions) == Ok::<u64, PriorityError>(
                priority,
            ),
            Ok(None) => true,
            Err(error) => resolved_priority(instructions) == Err::<u64, PriorityError>(error),
        },
    decreases at,
{
    if at > 0 {
        lemma_first_directive_decides(instructions.drop_first(), at - 1);
    }
}

/// A transaction whose one compute-budget instruction sets the compute unit
/// price has that price as its priority.
pub proof fn lemma_sole_price_directive_is_the_priority(
    instructions: Seq<Instruction>,
    at: int,
    price: u64,
)
    requires
        0 <= at < instructions.len(),
        is_compute_budget(instructions[at]),
        decoded_directive(instructions[at].data@) == Some(
            ComputeBudgetDirective::SetComputeUnitPrice(price),
        ),
        forall|i: int|
            0 <= i < instructions.len() && i != at ==> !is_compute_budget(
                #[trigger] instructions[i],
            ),
    ensures
        resolved_priority(instructions) == Ok::<u64, PriorityError>(price),
{
    lemma_first_directive_decides(instructions, at);
}

/// A transaction without a compute-budget instruction has priority 0.
pub proof fn lemma_no_directive_is_priority_zero(instructions: Seq<Instruction>)
    requires
        forall|i: int|
            0 <= i < instructions.len() ==> !is_compute_budget(#[trigger] instructions[i]),
    ensures
        resolved_priority(instructions) == Ok::<u64, PriorityError>(0),
    decreases instructions.len(),
{
    if instructions.len() > 0 {
        lemma_no_directive_is_priority_zero(instructions.drop_first());
    }
}

/// An additional fee of 32 bits, which is all that the encoding of a "request
/// units" directive holds, never overflows: for such a fee only zero units are
/// an error.
pub proof fn lemma_fee_of_32_bits_fits(units: u32, additional_fee: u64)
    requires
        units > 0,
        additional_fee <= u32::MAX,
    ensures
        request_units_priority(units, additional_fee) is Ok,
{
}

// The same data, the same outcome

/// Two instruction lists say the same: the same programs with the same
/// payloads, in the same order.
pub open spec fn same_instructions(first: Seq<Instruction>, second: Seq<Instruction>) -> bool {
    &&& first.len() == second.len()
    &&& forall|i: int|
        0 <= i < first.len() ==> (#[trigger] first[i]).program_id == second[i].program_id
            && first[i].data@ == second[i].data@
}

/// Two address lists read the same.
pub open spec fn same_addresses(first: Seq<String>, second: Seq<String>) -> bool {
    &&& first.len() == second.len()
    &&& forall|i: int| 0 <= i < first.len() ==> (#[trigger] first[i])@ == second[i]@
}

/// Two blocks hold the same data.
pub open spec fn same_block_data(
    first: Seq<BlockTransaction>,
    second: Seq<BlockTransaction>,
) -> bool {
    &&& first.len() == second.len()
    &&& forall|i: int|
        0 <= i < first.len() ==> {
            &&& (#[trigger] first[i]).signature == second[i].signature
            &&& same_instructions(first[i].instructions@, second[i].instructions@)
            &&& same_addresses(first[i].writable_addresses@, second[i].writable_addresses@)
            &&& same_addresses(first[i].readonly_addresses@, second[i].readonly_addresses@)
        }
}

proof fn lemma_same_instructions_same_priority(first: Seq<Instruction>, second: Seq<Instruction>)
    requires
        same_instructions(first, second),
    ensures
        resolved_priority(first) == resolved_priority(second),
    decreases first.len(),
{
    if first.len() > 0 {
        lemma_same_instructions_same_priority(first.drop_first(), second.drop_first());
    }
}

proof fn lemma_same_addresses_same_accounts(first: Seq<String>, second: Seq<String>)
    requires
        same_addresses(first, second),
    ensures
        parsed_accounts(first) == parsed_accounts(second),
    decreases first.len(),
{
    if first.len() > 0 {
        lemma_same_addresses_same_accounts(first.drop_last(), second.drop_last());
    }
}

/// A pass over the same block data ends the same way: in the same error, or
/// with the same records, the same violations in the same order and the same
/// violating transactions. Nothing but the data decides.
pub proof fn lemma_same_data_same_outcome(
    first: Seq<BlockTransaction>,
    second: Seq<BlockTransaction>,
)
    requires
        same_block_data(first, second),
    ensures
        resolved_block(first) == resolved_block(second),
        block_outcome(first) == block_outcome(second),
    decreases first.len(),
{
    if first.len() > 0 {
        lemma_same_data_same_outcome(first.drop_last(), second.drop_last());
        let a = first.last();
        let b = second.last();
        lemma_same_instructions_same_priority(a.instructions@, b.instructions@);
        lemma_same_addresses_same_accounts(a.writable_addresses@, b.writable_addresses@);
        lemma_same_addresses_same_accounts(a.readonly_addresses@, b.readonly_addresses@);
    }
}

// The report

/// No account is listed twice among the violated ones.
pub proof fn lemma_violated_accounts_are_distinct(violations: Seq<Violation>)
    ensures
        violated_accounts(violations).no_duplicates(),
    decreases violations.len(),
{
    if violations.len() > 0 {
        lemma_violated_accounts_are_distinct(violations.drop_last());
    }
}

/// The number of entries that `accounts` have among `violations`, together.
pub open spec fn total_entries(violations: Seq<Violation>, accounts: Seq<Account>) -> nat
    decreases accounts.len(),
{
    if accounts.len() == 0 {
        0
    } else {
        total_entries(violations, accounts.drop_last()) + entries_of(
            violations,
            accounts.last(),
        ).len()
    }
}

proof fn lemma_total_entries_after_one_more(violations: Seq<Violation>, accounts: Seq<Account>)
    requires
        violations.len() > 0,
        accounts.no_duplicates(),
    ensures
        total_entries(violations, accounts) == total_entries(violations.drop_last(), accounts) + (
        if accounts.contains(violations.last().account) {
            1nat
        } else {
            0nat
        }),
    decreases accounts.len(),
{
    if accounts.len() > 0 {
        let before = accounts.drop_last();
        let touched = violations.last().account;
        lemma_total_entries_after_one_more(violations, before);
        if !before.contains(touched) && accounts.contains(touched) {
            // Then `touched` is the last of `accounts`.
            let k = choose|k: int| 0 <= k < accounts.len() && accounts[k] == touched;
            if k < before.len() {
                assert(before[k] == touched);
            }
        }
    }
}

/// The count that a report states, the number of violations, is the number of
/// entries of all violated accounts together.
pub proof fn lemma_entries_add_up_to_the_count(violations: Seq<Violation>)
    ensures
        total_entries(violations, violated_accounts(violations)) == violations.len(),
    decreases violations.len(),
{
    if violations.len() > 0 {
        let before = violations.drop_last();
        let touched = violations.last().account;
        let accounts = violated_accounts(before);
        lemma_entries_add_up_to_the_count(before);
        lemma_violated_accounts_are_distinct(before);
        lemma_total_entries_after_one_more(violations, accounts);
        if !accounts.contains(touched) {
            assert(accounts.push(touched).drop_last() =~= accounts);
            lemma_violated_accounts_have_entries(before, touched);
        }
    }
}

/// The number that a decimal digit stands for.
pub open spec fn digit_value(digit: char) -> nat {
    if digit == '1' {
        1
    } else if digit == '2' {
        2
    } else if digit == '3' {
        3
    } else if digit == '4' {
        4
    } else if digit == '5' {
        5
    } else if digit == '6' {
        6
    } else if digit == '7' {
        7
    } else if digit == '8' {
        8
    } else if digit == '9' {
        9
    } else {
        0
    }
}

/// The number that a text of decimal digits stands for.
pub open spec fn decimal_value(text: Seq<char>) -> nat
    decreases text.len(),
{
    if text.len() == 0 {
        0
    } else {
        decimal_value(text.drop_last()) * 10 + digit_value(text.last())
    }
}

/// The decimal text of a number is that number and nothing else: it reads
/// back as the number, holds digits only, and starts with no zero unless the
/// number is zero.
pub proof fn lemma_decimal_text_reads_back(number: nat)
    ensures
        decimal_value(decimal_text(number)) == number,
        decimal_text(number).len() >= 1,
        forall|i: int|
            0 <= i < decimal_text(number).len() ==> #[trigger] decimal_text(number)[i]
                == decimal_digit(digit_value(decimal_text(number)[i])),
        number > 0 ==> decimal_text(number)[0] != '0',
    decreases number,
{
    if number < 10 {
        let text = seq![decimal_digit(number)];
        assert(decimal_value(text.drop_last()) == 0);
    } else {
        let front = decimal_text(number / 10);
        let text = front.push(decimal_digit(number % 10));
        lemma_decimal_text_reads_back(number / 10);
        assert(text.drop_last() =~= front);
    }
}

} // verus!
