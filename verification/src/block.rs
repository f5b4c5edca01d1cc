//! One pass over a block: from the transactions as the ledger gives them to
//! the report.
//!
//! A block entry names its accounts by address and states its priority in its
//! instructions. Each entry is resolved and handed to the tracker, in block
//! order. The first entry that cannot be resolved ends the pass with an error,
//! and nothing is reported.

use crate::account::{parsed_address, Account, AddressError, TransactionSignature};
use crate::priority::{get_priority, resolved_priority, Instruction, PriorityError};
use crate::report::ViolationReport;
use crate::tracker::{AccessTracker, TrackerState, Transaction, TransactionView};
use vstd::prelude::*;

verus! {

/// One transaction of a block, as the ledger gives it.
#[derive(Clone, Debug, PartialEq, Eq)]
pub struct BlockTransaction {
    pub signature: TransactionSignature,
    pub instructions: Vec<Instruction>,
    /// The addresses of the accounts that the transaction may write.
    pub writable_addresses: Vec<String>,
    /// The addresses of the accounts that the transaction only reads.
    pub readonly_addresses: Vec<String>,
}

/// One of the two address lists of a transaction.
#[derive(Clone, Copy, Debug, PartialEq, Eq, Structural)]
pub enum AddressList {
    Writable,
    Readonly,
}

/// Why a block has no report.
#[derive(Clone, Copy, Debug, PartialEq, Eq, Structural)]
pub enum BlockError {
    /// The transaction at index `transaction` has no priority.
    Priority { transaction: usize, error: PriorityError },
    /// The address at `position` of a list of the transaction at index
    /// `transaction` is not an account address.
    Address { transaction: usize, list: AddressList, position: usize, reason: AddressError },
}

/// The accounts that a list of addresses names, or the position of the first
/// address that names none, with the reason.
pub open spec fn parsed_accounts(addresses: Seq<String>) -> Result<
    Seq<Account>,
    (int, AddressError),
>
    decreases addresses.len(),
{
    if addresses.len() == 0 {
        Ok(Seq::empty())
    } else {
        match parsed_accounts(addresses.drop_last()) {
            Err(failure) => Err(failure),
            Ok(accounts) => match parsed_address(addresses.last()@) {
                Ok(account) => Ok(accounts.push(account)),
                Err(error) => Err((addresses.len() - 1, error)),
            },
        }
    }
}

/// What the tracker is to consume for the block entry at index `index`: its
/// priority first, then its writable accounts, then its readonly ones, and the
/// first of these that fails as the error.
pub open spec fn resolved_transaction(entry: BlockTransaction, index: usize) -> Result<
    TransactionView,
    BlockError,
> {
    match resolved_priority(entry.instructions@) {
        Err(error) => Err(BlockError::Priority { transaction: index, error }),
        Ok(priority) => match parsed_accounts(entry.writable_addresses@) {
            Err((position, reason)) => Err(
                BlockError::Address {
                    transaction: index,
                    list: AddressList::Writable,
                    position: position as usize,
                    reason,
                },
            ),
            Ok(writable_accounts) => match parsed_accounts(entry.readonly_addresses@) {
                Err((position, reason)) => Err(
                    BlockError::Address {
                        transaction: index,
                        list: AddressList::Readonly,
                        position: position as usize,
                        reason,
                    },
                ),
                Ok(readonly_accounts) => Ok(
                    TransactionView {
                        signature: entry.signature,
                        priority,
                        writable_accounts,
                        readonly_accounts,
                    },
                ),
            },
        },
    }
}

/// The transactions of a block, each resolved, or the error of the first that
/// cannot be.
pub open spec fn resolved_block(block: Seq<BlockTransaction>) -> Result<
    Seq<TransactionView>,
    BlockError,
>
    decreases block.len(),
{
    if block.len() == 0 {
        Ok(Seq::empty())
    } else {
        match resolved_block(block.drop_last()) {
            Err(error) => Err(error),
            Ok(transactions) => match resolved_transaction(
                block.last(),
                (block.len() - 1) as usize,
            ) {
                Ok(transaction) => Ok(transactions.push(transaction)),
                Err(error) => Err(error),
            },
        }
    }
}

/// The state in which a pass over `block` ends, or the error that ends it.
pub open spec fn block_outcome(block: Seq<BlockTransaction>) -> Result<TrackerState, BlockError> {
    match resolved_block(block) {
        Ok(transactions) => Ok(TrackerState::empty().apply_each(transactions)),
        Err(error) => Err(error),
    }
}

proof fn lemma_parse_failure_stays(addresses: Seq<String>, upto: int)
    requires
        0 <= upto <= addresses.len(),
        parsed_accounts(addresses.take(upto)) is Err,
    ensures
        parsed_accounts(addresses) == parsed_accounts(addresses.take(upto)),
    decreases addresses.len() - upto,
{
    if upto == addresses.len() {
        assert(addresses.take(upto) =~= addresses);
    } else {
        assert(addresses.take(upto + 1).drop_last() =~= addresses.take(upto));
        lemma_parse_failure_stays(addresses, upto + 1);
    }
}

proof fn lemma_block_failure_stays(block: Seq<BlockTransaction>, upto: int)
    requires
        0 <= upto <= block.len(),
        resolved_block(block.take(upto)) is Err,
    ensures
        resolved_block(block) == resolved_block(block.take(upto)),
    decreases block.len() - upto,
{
    if upto == block.len() {
        assert(block.take(upto) =~= block);
    } else {
        assert(block.take(upto + 1).drop_last() =~= block.take(upto));
        lemma_block_failure_stays(block, upto + 1);
    }
}

/// Reads the accounts that a list of addresses names.
pub fn parse_accounts(addresses: &Vec<String>) -> (r: Result<Vec<Account>, (usize, AddressError)>)
    ensures
        parsed_accounts(addresses@) == match r {
            Ok(accounts) => Ok(accounts@),
            Err((position, error)) => Err((position as int, error)),
        },
{
    let mut accounts: Vec<Account> = Vec::new();
    let mut i: usize = 0;
    while i < addresses.len()
        invariant
            i <= addresses.len(),
            parsed_accounts(addresses@.take(i as int)) == Ok::<Seq<Account>, (int, AddressError)>(
                accounts@,
            ),
        decreases addresses.len() - i,
    {
        assert(addresses@.take(i + 1).drop_last() =~= addresses@.take(i as int));
        match Account::parse(addresses[i].as_str()) {
            Ok(account) => {
                accounts.push(account);
            },
            Err(error) => {
                proof {
                    lemma_parse_failure_stays(addresses@, i + 1);
                }
                return Err((i, error));
            },
        }
        i += 1;
    }
    assert(addresses@.take(i as int) =~= addresses@);
    Ok(accounts)
}

/// Resolves the block entry at index `index` into what the tracker consumes.
pub fn resolve_transaction(entry: &BlockTransaction, index: usize) -> (r: Result<
    Transaction,
    BlockError,
>)
    ensures
        resolved_transaction(*entry, index) == match r {
            Ok(transaction) => Ok(transaction@),
            Err(error) => Err(error),
        },
{
    let priority = match get_priority(&entry.instructions) {
        Ok(priority) => priority,
        Err(error) => {
            return Err(BlockError::Priority { transaction: index, error });
        },
    };
    let writable_accounts = match parse_accounts(&entry.writable_addresses) {
        Ok(accounts) => accounts,
        Err((position, reason)) => {
            return Err(
                BlockError::Address {
                    transaction: index,
                    list: AddressList::Writable,
                    position,
                    reason,
                },
            );
        },
    };
    let readonly_accounts = match parse_accounts(&entry.readonly_addresses) {
        Ok(accounts) => accounts,
        Err((position, reason)) => {
            return Err(
                BlockError::Address {
                    transaction: index,
                    list: AddressList::Readonly,
                    position,
                    reason,
                },
            );
        },
    };
    Ok(Transaction { signature: entry.signature, priority, writable_accounts, readonly_accounts })
}

/// Checks one block: every transaction in block order, then the report.
pub fn check_block(block: &Vec<BlockTransaction>) -> (r: Result<ViolationReport, BlockError>)
    ensures
        match r {
            Ok(report) => block_outcome(block@) matches Ok(state) && report.violations@
                == state.violations && report.violating_transactions@
                == state.violating_transactions,
            Err(error) => block_outcome(block@) == Err::<TrackerState, BlockError>(error),
        },
{
    let mut tracker = AccessTracker::new();
    let ghost mut transactions: Seq<TransactionView> = Seq::empty();
    let mut i: usize = 0;
    while i < block.len()
        invariant
            i <= block.len(),
            resolved_block(block@.take(i as int)) == Ok::<Seq<TransactionView>, BlockError>(
                transactions,
            ),
            tracker@ == TrackerState::empty().apply_each(transactions),
        decreases block.len() - i,
    {
        assert(block@.take(i + 1).drop_last() =~= block@.take(i as int));
        match resolve_transaction(&block[i], i) {
            Ok(transaction) => {
                tracker.process(&transaction);
                proof {
                    assert(transactions.push(transaction@).drop_last() =~= transactions);
                    transactions = transactions.push(transaction@);
                }
            },
            Err(error) => {
                proof {
                    lemma_block_failure_stays(block@, i + 1);
                }
                return Err(error);
            },
        }
        i += 1;
    }
    assert(block@.take(i as int) =~= block@);
    Ok(tracker.into_report())
}

} // verus!
