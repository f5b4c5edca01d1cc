//! The fee priority of a transaction.
//!
//! A transaction states its priority through a directive to the compute-budget
//! program. The first such directive in its instruction list decides; a
//! transaction without one has priority 0.

use crate::account::Account;
use solana_sdk::borsh0_10::try_from_slice_unchecked;
use solana_sdk::compute_budget::{check_id, ComputeBudgetInstruction as Encoded};
use solana_sdk::pubkey::Pubkey;
use vstd::prelude::*;

verus! {

/// Micro-lamports in one lamport: priorities are in micro-lamports per unit.
pub const MICRO_LAMPORTS_PER_LAMPORT: u64 = 1_000_000;

/// First byte of an encoded "request units" directive.
pub const REQUEST_UNITS_TAG: u8 = 0;

/// First byte of an encoded "set compute unit price" directive.
pub const SET_COMPUTE_UNIT_PRICE_TAG: u8 = 3;

/// One instruction of a transaction: the program it addresses and its payload.
#[derive(Clone, Debug, PartialEq, Eq)]
pub struct Instruction {
    pub program_id: Account,
    pub data: Vec<u8>,
}

/// A decoded instruction to the compute-budget program.
#[derive(Clone, Copy, Debug, PartialEq, Eq, Structural)]
pub enum ComputeBudgetDirective {
    /// Deprecated: requests compute units and pays an additional fee for them.
    RequestUnitsDeprecated { units: u32, additional_fee: u64 },
    RequestHeapFrame(u32),
    SetComputeUnitLimit(u32),
    /// Sets the price of a compute unit, in micro-lamports.
    SetComputeUnitPrice(u64),
    SetLoadedAccountsDataSizeLimit(u32),
}

/// Why a transaction has no priority.
#[derive(Clone, Copy, Debug, PartialEq, Eq, Structural)]
pub enum PriorityError {
    /// A "request units" directive asks for zero units.
    DivisionByZero,
    /// The fee per unit does not fit in 64 bits.
    Overflow,
    /// A payload that starts like one of the two directives that state a
    /// priority does not decode.
    MalformedDirective,
}

/// The compute-budget program, `ComputeBudget111111111111111111111111111111`.
pub fn compute_budget_program() -> (program: Account)
    ensures
        program@ == compute_budget_program_id(),
{
    Account {
        bytes: [
            3, 6, 70, 111, 229, 33, 23, 50,
            255, 236, 173, 186, 114, 195, 155, 231,
            188, 140, 229, 187, 197, 247, 18, 107,
            44, 67, 155, 58, 64, 0, 0, 0,
        ],
    }
}

/// The 32 bytes of the compute-budget program's address.
pub open spec fn compute_budget_program_id() -> Seq<u8> {
    seq![
        3u8, 6u8, 70u8, 111u8, 229u8, 33u8, 23u8, 50u8,
        255u8, 236u8, 173u8, 186u8, 114u8, 195u8, 155u8, 231u8,
        188u8, 140u8, 229u8, 187u8, 197u8, 247u8, 18u8, 107u8,
        44u8, 67u8, 155u8, 58u8, 64u8, 0u8, 0u8, 0u8,
    ]
}

/// What `try_from_slice_unchecked` decodes from a payload as a
/// `ComputeBudgetInstruction`, or `None` where it fails.
pub uninterp spec fn decoded_directive(data: Seq<u8>) -> Option<ComputeBudgetDirective>;

/// The priority that a "request units" directive states:
/// `additional_fee * 1_000_000 / units`, rounded down.
pub open spec fn request_units_priority(units: u32, additional_fee: u64) -> Result<
    u64,
    PriorityError,
> {
    if units == 0 {
        Err(PriorityError::DivisionByZero)
    } else if additional_fee * MICRO_LAMPORTS_PER_LAMPORT / (units as int) > u64::MAX {
        Err(PriorityError::Overflow)
    } else {
        Ok((additional_fee * MICRO_LAMPORTS_PER_LAMPORT / (units as int)) as u64)
    }
}

/// Whether a payload starts like one of the two directives that state a
/// priority.
pub open spec fn has_priority_tag(data: Seq<u8>) -> bool {
    data.len() > 0 && (data[0] == REQUEST_UNITS_TAG || data[0] == SET_COMPUTE_UNIT_PRICE_TAG)
}

/// What a compute-budget payload says of the priority, given its decoding:
/// `Ok(Some(p))` where it states priority `p`, `Ok(None)` where it states none.
///
/// Two directives state a priority, "request units" and "set compute unit
/// price". Any other directive is passed over, and so is a payload that does
/// not decode, unless its first byte is that of one of the two: such a payload
/// is an error.
pub open spec fn directive_priority(
    decoded: Option<ComputeBudgetDirective>,
    data: Seq<u8>,
) -> Result<Option<u64>, PriorityError> {
    match decoded {
        Some(ComputeBudgetDirective::RequestUnitsDeprecated { units, additional_fee }) => {
            match request_units_priority(units, additional_fee) {
                Ok(priority) => Ok(Some(priority)),
                Err(e) => Err(e),
            }
        },
        Some(ComputeBudgetDirective::SetComputeUnitPrice(price)) => Ok(Some(price)),
        Some(_) => Ok(None),
        None => if has_priority_tag(data) {
            Err(PriorityError::MalformedDirective)
        } else {
            Ok(None)
        },
    }
}

/// Whether an instruction addresses the compute-budget program.
pub open spec fn is_compute_budget(instruction: Instruction) -> bool {
    instruction.program_id@ == compute_budget_program_id()
}

/// What one instruction says of the priority.
pub open spec fn instruction_priority(instruction: Instruction) -> Result<
    Option<u64>,
    PriorityError,
> {
    if is_compute_budget(instruction) {
        directive_priority(decoded_directive(instruction.data@), instruction.data@)
    } else {
        Ok(None)
    }
}

/// The priority of a transaction with the given instructions: what the first
/// instruction that says anything says, and 0 where none does.
pub open spec fn resolved_priority(instructions: Seq<Instruction>) -> Result<u64, PriorityError>
    decreases instructions.len(),
{
    if instructions.len() == 0 {
        Ok(0)
    } else {
        match instruction_priority(instructions[0]) {
            Ok(None) => resolved_priority(instructions.drop_first()),
            Ok(Some(priority)) => Ok(priority),
            Err(e) => Err(e),
        }
    }
}

/// Whether `program_id` is the compute-budget program.
///
/// Calls `solana_sdk::compute_budget::check_id`, which compares the key with
/// the program's declared id; the contract gives that id by its bytes.
#[verifier::external_body]
fn is_compute_budget_program(program_id: &Account) -> (r: bool)
    ensures
        r == (program_id@ == compute_budget_program_id()),
{
    check_id(&Pubkey::new_from_array(program_id.bytes))
}

impl ComputeBudgetDirective {
    /// Decodes a payload as a compute-budget instruction.
    ///
    /// Calls `solana_sdk::borsh0_10::try_from_slice_unchecked` at
    /// `ComputeBudgetInstruction`; the contract names its result, with `None`
    /// for a failure, and nothing more is claimed of the encoding.
    #[verifier::external_body]
    pub(crate) fn decode(data: &[u8]) -> (r: Option<Self>)
        ensures
            r == decoded_directive(data@),
    {
        match try_from_slice_unchecked::<Encoded>(data) {
            Ok(Encoded::RequestUnitsDeprecated { units, additional_fee }) => {
                Some(Self::RequestUnitsDeprecated { units, additional_fee: additional_fee.into() })
            },
            Ok(Encoded::RequestHeapFrame(bytes)) => Some(Self::RequestHeapFrame(bytes)),
            Ok(Encoded::SetComputeUnitLimit(units)) => Some(Self::SetComputeUnitLimit(units)),
            Ok(Encoded::SetComputeUnitPrice(price)) => Some(Self::SetComputeUnitPrice(price)),
            Ok(Encoded::SetLoadedAccountsDataSizeLimit(bytes)) => {
                Some(Self::SetLoadedAccountsDataSizeLimit(bytes))
            },
            Err(_) => None,
        }
    }
}

/// The fee per unit of a "request units" directive, in micro-lamports.
pub fn fee_per_unit(units: u32, additional_fee: u64) -> (r: Result<u64, PriorityError>)
    ensures
        r == request_units_priority(units, additional_fee),
{
    if units == 0 {
        return Err(PriorityError::DivisionByZero);
    }
    let fee: u128 = additional_fee as u128;
    let scale: u128 = MICRO_LAMPORTS_PER_LAMPORT as u128;
    let scaled: u128 = fee * scale;
    let per_unit: u128 = scaled / (units as u128);
    if per_unit > u64::MAX as u128 {
        Err(PriorityError::Overflow)
    } else {
        Ok(per_unit as u64)
    }
}

/// What a compute-budget payload says of the priority, given its decoding.
pub fn priority_of_directive(decoded: Option<ComputeBudgetDirective>, data: &[u8]) -> (r: Result<
    Option<u64>,
    PriorityError,
>)
    ensures
        r == directive_priority(decoded, data@),
{
    match decoded {
        Some(ComputeBudgetDirective::RequestUnitsDeprecated { units, additional_fee }) => {
            match fee_per_unit(units, additional_fee) {
                Ok(priority) => Ok(Some(priority)),
                Err(e) => Err(e),
            }
        },
        Some(ComputeBudgetDirective::SetComputeUnitPrice(price)) => Ok(Some(price)),
        Some(_) => Ok(None),
        None => {
            if data.len() > 0 && (data[0] == REQUEST_UNITS_TAG || data[0]
                == SET_COMPUTE_UNIT_PRICE_TAG) {
                Err(PriorityError::MalformedDirective)
            } else {
                Ok(None)
            }
        },
    }
}

/// The priority of a transaction with the given instructions.
pub fn get_priority(instructions: &Vec<Instruction>) -> (r: Result<u64, PriorityError>)
    ensures
        r == resolved_priority(instructions@),
{
    let mut i: usize = 0;
    assert(instructions@.skip(0) =~= instructions@);
    while i < instructions.len()
        invariant
            i <= instructions.len(),
            resolved_priority(instructions@) == resolved_priority(instructions@.skip(i as int)),
        decreases instructions.len() - i,
    {
        let instruction = &instructions[i];
        assert(instructions@.skip(i as int).drop_first() =~= instructions@.skip(i + 1));
        if is_compute_budget_program(&instruction.program_id) {
            let data = instruction.data.as_slice();
            match priority_of_directive(ComputeBudgetDirective::decode(data), data) {
                Ok(None) => {},
                Ok(Some(priority)) => {
                    return Ok(priority);
                },
                Err(e) => {
                    return Err(e);
                },
            }
        }
        i += 1;
    }
    Ok(0)
}

} // verus!
