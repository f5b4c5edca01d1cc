//! The report of one pass: the violations by account, and its text.
//!
//! The count that the report states is the number of violations, one for each
//! violating touch. A transaction that violates on several accounts counts
//! once for each; the transactions themselves are listed by signature.

use crate::account::{address_text, signature_text, Account, TransactionSignature};
use crate::account_map::AccountMap;
use crate::tracker::Violation;
use vstd::prelude::*;
use vstd::string::StringExecFns;

verus! {

/// The two priorities of one violation.
#[derive(Clone, Copy, Debug, PartialEq, Eq, Structural)]
pub struct ViolationEntry {
    pub old_priority: u64,
    pub new_priority: u64,
}

/// The violations on one account, in the order found.
#[derive(Clone, Debug, PartialEq, Eq)]
pub struct AccountViolations {
    pub account: Account,
    pub entries: Vec<ViolationEntry>,
}

/// What one pass over a block found.
#[derive(Clone, Debug, PartialEq, Eq)]
pub struct ViolationReport {
    /// The violations, in the order found.
    pub violations: Vec<Violation>,
    /// The signatures of the transactions that violated, in block order.
    pub violating_transactions: Vec<TransactionSignature>,
}

/// The priorities of a violation.
pub open spec fn entry_of(violation: Violation) -> ViolationEntry {
    ViolationEntry {
        old_priority: violation.old_priority,
        new_priority: violation.new_priority,
    }
}

/// The entries of the violations on `account`, in the order found.
pub open spec fn entries_of(violations: Seq<Violation>, account: Account) -> Seq<ViolationEntry>
    decreases violations.len(),
{
    if violations.len() == 0 {
        Seq::empty()
    } else if violations.last().account == account {
        entries_of(violations.drop_last(), account).push(entry_of(violations.last()))
    } else {
        entries_of(violations.drop_last(), account)
    }
}

/// The accounts that have a violation, each once, in the order of their first
/// violation.
pub open spec fn violated_accounts(violations: Seq<Violation>) -> Seq<Account>
    decreases violations.len(),
{
    if violations.len() == 0 {
        Seq::empty()
    } else if violated_accounts(violations.drop_last()).contains(violations.last().account) {
        violated_accounts(violations.drop_last())
    } else {
        violated_accounts(violations.drop_last()).push(violations.last().account)
    }
}

/// An account is among the violated ones exactly when it has an entry.
pub proof fn lemma_violated_accounts_have_entries(violations: Seq<Violation>, account: Account)
    ensures
        violated_accounts(violations).contains(account) <==> entries_of(violations, account).len()
            > 0,
    decreases violations.len(),
{
    if violations.len() > 0 {
        let before = violated_accounts(violations.drop_last());
        lemma_violated_accounts_have_entries(violations.drop_last(), account);
        if before.contains(violations.last().account) {
        } else {
            let after = before.push(violations.last().account);
            assert(after[before.len() as int] == violations.last().account);
            if before.contains(account) {
                let k = choose|k: int| 0 <= k < before.len() && before[k] == account;
                assert(after[k] == account);
            }
        }
    }
}

/// The decimal digit for a number below ten.
pub open spec fn decimal_digit(digit: nat) -> char
    recommends
        digit < 10,
{
    if digit == 0 {
        '0'
    } else if digit == 1 {
        '1'
    } else if digit == 2 {
        '2'
    } else if digit == 3 {
        '3'
    } else if digit == 4 {
        '4'
    } else if digit == 5 {
        '5'
    } else if digit == 6 {
        '6'
    } else if digit == 7 {
        '7'
    } else if digit == 8 {
        '8'
    } else {
        '9'
    }
}

/// A number in decimal, without sign or leading zeros.
pub open spec fn decimal_text(number: nat) -> Seq<char>
    decreases number,
{
    if number < 10 {
        seq![decimal_digit(number)]
    } else {
        decimal_text(number / 10).push(decimal_digit(number % 10))
    }
}

/// The views of a list of lines.
pub open spec fn texts(lines: Seq<String>) -> Seq<Seq<char>> {
    lines.map_values(|line: String| line@)
}

/// The line that opens a report with violations.
pub open spec fn header_line(violations: nat, accounts: nat) -> Seq<char> {
    decimal_text(violations) + " priority violations found on "@ + decimal_text(accounts)
        + " accounts:"@
}

/// The line that opens the entries of an account.
pub open spec fn account_line(account: Account) -> Seq<char> {
    "Account: "@ + address_text(account@)
}

/// The line of one entry.
pub open spec fn entry_line(entry: ViolationEntry) -> Seq<char> {
    "  "@ + decimal_text(entry.old_priority as nat) + " -> "@ + decimal_text(
        entry.new_priority as nat,
    )
}

/// The lines of one account: its address, then its entries.
pub open spec fn account_block(account: Account, entries: Seq<ViolationEntry>) -> Seq<Seq<char>> {
    seq![account_line(account)] + entries.map_values(|entry: ViolationEntry| entry_line(entry))
}

/// The lines of each of `accounts` in turn, with its entries among
/// `violations`.
pub open spec fn account_blocks(violations: Seq<Violation>, accounts: Seq<Account>) -> Seq<
    Seq<char>,
>
    decreases accounts.len(),
{
    if accounts.len() == 0 {
        Seq::empty()
    } else {
        account_blocks(violations, accounts.drop_last()) + account_block(
            accounts.last(),
            entries_of(violations, accounts.last()),
        )
    }
}

/// The lines that list the violating transactions.
pub open spec fn signature_lines(signatures: Seq<TransactionSignature>) -> Seq<Seq<char>> {
    signatures.map_values(|signature: TransactionSignature| signature_text(signature@))
}

/// The text of a report, line by line.
///
/// With `count_only` it is the number of violations and nothing else. Without
/// violations it is one line that says so. Otherwise a header, the violated
/// accounts with their entries, and the violating transactions.
pub open spec fn report_lines(
    violations: Seq<Violation>,
    violating_transactions: Seq<TransactionSignature>,
    count_only: bool,
) -> Seq<Seq<char>> {
    if count_only {
        seq![decimal_text(violations.len())]
    } else if violations.len() == 0 {
        seq!["No priority violations found"@]
    } else {
        seq![header_line(violations.len(), violated_accounts(violations).len())] + account_blocks(
            violations,
            violated_accounts(violations),
        ) + seq!["Violating transactions:"@] + signature_lines(violating_transactions)
    }
}

fn digit_text(digit: u64) -> (text: &'static str)
    requires
        digit < 10,
    ensures
        text@ == seq![decimal_digit(digit as nat)],
{
    proof {
        reveal_strlit("0");
        reveal_strlit("1");
        reveal_strlit("2");
        reveal_strlit("3");
        reveal_strlit("4");
        reveal_strlit("5");
        reveal_strlit("6");
        reveal_strlit("7");
        reveal_strlit("8");
        reveal_strlit("9");
    }
    let text = if digit == 0 {
        "0"
    } else if digit == 1 {
        "1"
    } else if digit == 2 {
        "2"
    } else if digit == 3 {
        "3"
    } else if digit == 4 {
        "4"
    } else if digit == 5 {
        "5"
    } else if digit == 6 {
        "6"
    } else if digit == 7 {
        "7"
    } else if digit == 8 {
        "8"
    } else {
        "9"
    };
    text
}

/// A number in decimal.
pub fn decimal_string(number: u64) -> (text: String)
    ensures
        text@ == decimal_text(number as nat),
    decreases number,
{
    if number < 10 {
        String::from_str(digit_text(number))
    } else {
        let mut text = decimal_string(number / 10);
        text.append(digit_text(number % 10));
        text
    }
}

/// Whether `groups` are the violations by account: one group for each violated
/// account, in the order of its first violation, with its entries in the order
/// found.
pub open spec fn groups_of(groups: Seq<AccountViolations>, violations: Seq<Violation>) -> bool {
    &&& groups.len() == violated_accounts(violations).len()
    &&& forall|k: int|
        0 <= k < groups.len() ==> {
            &&& (#[trigger] groups[k]).account == violated_accounts(violations)[k]
            &&& groups[k].entries@ == entries_of(violations, groups[k].account)
        }
}

/// Whether `positions` tells for each account where its group stands, and for
/// no other account.
spec fn positions_of(positions: Map<Account, usize>, groups: Seq<AccountViolations>) -> bool {
    &&& forall|account: Account| #[trigger]
        positions.contains_key(account) ==> positions[account] < groups.len()
            && groups[positions[account] as int].account == account
    &&& forall|k: int|
        0 <= k < groups.len() ==> positions.contains_key((#[trigger] groups[k]).account)
            && positions[groups[k].account] == k
}

/// Sorts violations by account.
pub fn group_by_account(violations: &Vec<Violation>) -> (groups: Vec<AccountViolations>)
    ensures
        groups_of(groups@, violations@),
{
    let mut groups: Vec<AccountViolations> = Vec::new();
    let mut positions: AccountMap<usize> = AccountMap::new();
    let mut i: usize = 0;
    while i < violations.len()
        invariant
            i <= violations.len(),
            groups_of(groups@, violations@.take(i as int)),
            positions_of(positions@, groups@),
        decreases violations.len() - i,
    {
        let violation = violations[i];
        let account = violation.account;
        let entry = ViolationEntry {
            old_priority: violation.old_priority,
            new_priority: violation.new_priority,
        };
        let ghost before = violations@.take(i as int);
        let ghost after = violations@.take(i + 1);
        let ghost old_groups = groups@;
        proof {
            assert(after.drop_last() =~= before);
            lemma_violated_accounts_have_entries(before, account);
        }
        match positions.get(&account) {
            Some(position) => {
                groups[*position].entries.push(entry);
            },
            None => {
                let mut entries: Vec<ViolationEntry> = Vec::new();
                entries.push(entry);
                positions.insert(account, groups.len());
                groups.push(AccountViolations { account, entries });
                proof {
                    // An account without a position has no group, so it is new
                    // among the violated ones.
                    assert(!violated_accounts(before).contains(account)) by {
                        if violated_accounts(before).contains(account) {
                            let j = choose|j: int|
                                0 <= j < old_groups.len() && violated_accounts(before)[j]
                                    == account;
                            assert(old_groups[j].account == account);
                        }
                    }
                    assert forall|j: int| 0 <= j < groups@.len() implies {
                        &&& (#[trigger] groups@[j]).account == violated_accounts(after)[j]
                        &&& groups@[j].entries@ == entries_of(after, groups@[j].account)
                    } by {}
                }
            },
        }
        i += 1;
    }
    assert(violations@.take(i as int) =~= violations@);
    groups
}

fn header_string(violations: usize, accounts: usize) -> (text: String)
    ensures
        text@ == header_line(violations as nat, accounts as nat),
{
    let mut text = decimal_string(violations as u64);
    text.append(" priority violations found on ");
    text.append(decimal_string(accounts as u64).as_str());
    text.append(" accounts:");
    text
}

fn entry_string(entry: &ViolationEntry) -> (text: String)
    ensures
        text@ == entry_line(*entry),
{
    let mut text = String::from_str("  ");
    text.append(decimal_string(entry.old_priority).as_str());
    text.append(" -> ");
    text.append(decimal_string(entry.new_priority).as_str());
    text
}

fn push_account_block(lines: &mut Vec<String>, group: &AccountViolations)
    ensures
        texts(final(lines)@) == texts(old(lines)@) + account_block(group.account, group.entries@),
{
    let mut first = String::from_str("Account: ");
    first.append(group.account.address().as_str());
    lines.push(first);
    let ghost opened = texts(old(lines)@) + seq![account_line(group.account)];
    let mut i: usize = 0;
    while i < group.entries.len()
        invariant
            i <= group.entries.len(),
            texts(lines@) == opened + group.entries@.take(i as int).map_values(
                |entry: ViolationEntry| entry_line(entry),
            ),
        decreases group.entries.len() - i,
    {
        let ghost before = texts(lines@);
        lines.push(entry_string(&group.entries[i]));
        assert(texts(lines@) =~= before.push(entry_line(group.entries@[i as int])));
        i += 1;
    }
}

fn push_signature_lines(lines: &mut Vec<String>, signatures: &Vec<TransactionSignature>)
    ensures
        texts(final(lines)@) == texts(old(lines)@) + signature_lines(signatures@),
{
    let mut i: usize = 0;
    while i < signatures.len()
        invariant
            i <= signatures.len(),
            texts(lines@) == texts(old(lines)@) + signature_lines(signatures@.take(i as int)),
        decreases signatures.len() - i,
    {
        let ghost before = texts(lines@);
        lines.push(signatures[i].text());
        assert(texts(lines@) =~= before.push(signature_text(signatures@[i as int]@)));
        i += 1;
    }
}

impl ViolationReport {
    /// The number of violations: the count that the report states.
    pub fn violation_count(&self) -> (count: usize)
        ensures
            count == self.violations@.len(),
    {
        self.violations.len()
    }

    /// The number of transactions that violated. In the report of a pass it is
    /// never above the number of violations, and below it where a transaction
    /// violated on more than one account.
    pub fn violating_transaction_count(&self) -> (count: usize)
        ensures
            count == self.violating_transactions@.len(),
    {
        self.violating_transactions.len()
    }

    /// The violations by account.
    pub fn violated_accounts(&self) -> (groups: Vec<AccountViolations>)
        ensures
            groups_of(groups@, self.violations@),
    {
        group_by_account(&self.violations)
    }

    /// The text of the report, line by line.
    pub fn render(&self, count_only: bool) -> (lines: Vec<String>)
        ensures
            texts(lines@) == report_lines(
                self.violations@,
                self.violating_transactions@,
                count_only,
            ),
            lines@.len() == report_lines(
                self.violations@,
                self.violating_transactions@,
                count_only,
            ).len(),
            count_only ==> lines@.len() == 1 && lines@[0]@ == decimal_text(self.violations@.len()),
    {
        let mut lines: Vec<String> = Vec::new();
        if count_only {
            lines.push(decimal_string(self.violations.len() as u64));
            return lines;
        }
        if self.violations.len() == 0 {
            lines.push(String::from_str("No priority violations found"));
            return lines;
        }
        let groups = group_by_account(&self.violations);
        let ghost accounts = violated_accounts(self.violations@);
        let ghost header = seq![header_line(self.violations@.len(), accounts.len())];
        lines.push(header_string(self.violations.len(), groups.len()));
        let mut k: usize = 0;
        while k < groups.len()
            invariant
                k <= groups.len(),
                accounts == violated_accounts(self.violations@),
                groups_of(groups@, self.violations@),
                texts(lines@) == header + account_blocks(self.violations@, accounts.take(k as int)),
            decreases groups.len() - k,
        {
            push_account_block(&mut lines, &groups[k]);
            assert(accounts.take(k + 1).drop_last() =~= accounts.take(k as int));
            k += 1;
        }
        assert(accounts.take(k as int) =~= accounts);
        lines.push(String::from_str("Violating transactions:"));
        push_signature_lines(&mut lines, &self.violating_transactions);
        lines
    }
}

} // verus!
