use priority_check::account::Account;
use priority_check::priority::{
    compute_budget_program, fee_per_unit, get_priority, priority_of_directive,
    ComputeBudgetDirective, Instruction, PriorityError,
};
use solana_sdk::compute_budget::ComputeBudgetInstruction;

const COMPUTE_BUDGET: [u8; 32] = [
    3, 6, 70, 111, 229, 33, 23, 50, 255, 236, 173, 186, 114, 195, 155, 231, 188, 140, 229, 187,
    197, 247, 18, 107, 44, 67, 155, 58, 64, 0, 0, 0,
];

fn budget(data: Vec<u8>) -> Instruction {
    Instruction { program_id: Account::new(COMPUTE_BUDGET), data }
}

fn other(data: Vec<u8>) -> Instruction {
    Instruction { program_id: Account::new([9; 32]), data }
}

fn set_price(price: u64) -> Vec<u8> {
    let mut data = vec![3u8];
    data.extend_from_slice(&price.to_le_bytes());
    data
}

fn request_units(units: u32, additional_fee: u32) -> Vec<u8> {
    let mut data = vec![0u8];
    data.extend_from_slice(&units.to_le_bytes());
    data.extend_from_slice(&additional_fee.to_le_bytes());
    data
}

#[test]
fn compute_budget_program_is_the_one_the_sdk_declares() {
    assert_eq!(compute_budget_program(), Account::new(COMPUTE_BUDGET));
    assert_eq!(compute_budget_program().bytes, solana_sdk::compute_budget::id().to_bytes());
}

#[test]
fn no_instructions_is_priority_zero() {
    assert_eq!(get_priority(&vec![]), Ok(0));
}

#[test]
fn no_compute_budget_instruction_is_priority_zero() {
    let instructions = vec![other(set_price(77)), other(vec![]), other(vec![1, 2, 3])];
    assert_eq!(get_priority(&instructions), Ok(0));
}

#[test]
fn set_compute_unit_price_is_the_priority() {
    for price in [0u64, 1, 5_000, 1_000_000_007, u64::MAX] {
        assert_eq!(get_priority(&vec![budget(set_price(price))]), Ok(price));
    }
}

#[test]
fn price_directive_among_other_programs() {
    let instructions =
        vec![other(vec![3, 1, 1, 1, 1, 1, 1, 1, 1]), budget(set_price(4242)), other(vec![0])];
    assert_eq!(get_priority(&instructions), Ok(4242));
}

#[test]
fn price_directive_as_the_sdk_encodes_it() {
    let built = ComputeBudgetInstruction::set_compute_unit_price(123_456_789);
    let instruction =
        Instruction { program_id: Account::new(built.program_id.to_bytes()), data: built.data };
    assert_eq!(instruction.data, set_price(123_456_789));
    assert_eq!(get_priority(&vec![instruction]), Ok(123_456_789));
}

#[test]
fn program_id_one_byte_off_is_not_compute_budget() {
    let mut bytes = COMPUTE_BUDGET;
    bytes[31] = 1;
    let instructions = vec![Instruction { program_id: Account::new(bytes), data: set_price(9) }];
    assert_eq!(get_priority(&instructions), Ok(0));
}

#[test]
fn request_units_is_fee_per_unit_in_micro_lamports() {
    assert_eq!(get_priority(&vec![budget(request_units(200_000, 10))]), Ok(50));
    assert_eq!(get_priority(&vec![budget(request_units(3, 1))]), Ok(333_333));
    assert_eq!(get_priority(&vec![budget(request_units(1, u32::MAX))]), Ok(4_294_967_295_000_000));
    assert_eq!(get_priority(&vec![budget(request_units(u32::MAX, 1))]), Ok(0));
    assert_eq!(get_priority(&vec![budget(request_units(7, 0))]), Ok(0));
}

#[test]
fn request_units_of_zero_units_is_an_error() {
    assert_eq!(
        get_priority(&vec![budget(request_units(0, 10))]),
        Err(PriorityError::DivisionByZero)
    );
    assert_eq!(
        get_priority(&vec![budget(request_units(0, 0))]),
        Err(PriorityError::DivisionByZero)
    );
}

#[test]
fn first_directive_decides() {
    let instructions = vec![budget(set_price(10)), budget(set_price(20))];
    assert_eq!(get_priority(&instructions), Ok(10));
    let instructions = vec![budget(request_units(1_000_000, 5)), budget(set_price(20))];
    assert_eq!(get_priority(&instructions), Ok(5));
    let instructions = vec![budget(set_price(20)), budget(request_units(0, 5))];
    assert_eq!(get_priority(&instructions), Ok(20));
    let instructions = vec![budget(request_units(0, 5)), budget(set_price(20))];
    assert_eq!(get_priority(&instructions), Err(PriorityError::DivisionByZero));
}

#[test]
fn other_compute_budget_directives_are_skipped() {
    // heap frame, compute unit limit, loaded accounts data size limit
    let heap = vec![1u8, 0, 0, 1, 0];
    let limit = vec![2u8, 64, 66, 15, 0];
    let size = vec![4u8, 0, 16, 0, 0];
    let instructions = vec![budget(heap.clone()), budget(limit.clone()), budget(size.clone())];
    assert_eq!(get_priority(&instructions), Ok(0));
    let instructions = vec![budget(heap), budget(limit), budget(size), budget(set_price(31))];
    assert_eq!(get_priority(&instructions), Ok(31));
}

#[test]
fn unknown_first_byte_is_skipped() {
    let instructions = vec![budget(vec![9, 1, 2, 3]), budget(vec![255]), budget(set_price(8))];
    assert_eq!(get_priority(&instructions), Ok(8));
    assert_eq!(get_priority(&vec![budget(vec![])]), Ok(0));
    // a payload too short for a directive that states no priority
    assert_eq!(get_priority(&vec![budget(vec![1]), budget(vec![2, 0]), budget(vec![4])]), Ok(0));
}

#[test]
fn truncated_price_directive_is_malformed() {
    assert_eq!(get_priority(&vec![budget(vec![3])]), Err(PriorityError::MalformedDirective));
    assert_eq!(
        get_priority(&vec![budget(vec![3, 1, 2, 3, 4, 5, 6, 7])]),
        Err(PriorityError::MalformedDirective)
    );
    assert_eq!(
        get_priority(&vec![other(vec![3]), budget(vec![3, 0]), budget(set_price(1))]),
        Err(PriorityError::MalformedDirective)
    );
}

#[test]
fn truncated_request_units_directive_is_malformed() {
    assert_eq!(get_priority(&vec![budget(vec![0])]), Err(PriorityError::MalformedDirective));
    assert_eq!(
        get_priority(&vec![budget(vec![0, 1, 0, 0, 0, 9, 0, 0])]),
        Err(PriorityError::MalformedDirective)
    );
}

#[test]
fn trailing_bytes_do_not_matter() {
    let mut data = set_price(66);
    data.extend_from_slice(&[1, 2, 3]);
    assert_eq!(get_priority(&vec![budget(data)]), Ok(66));
}

#[test]
fn malformed_directive_after_a_deciding_one_is_not_seen() {
    let instructions = vec![budget(set_price(3)), budget(vec![3])];
    assert_eq!(get_priority(&instructions), Ok(3));
}

#[test]
fn fee_per_unit_exact_values() {
    assert_eq!(fee_per_unit(1, 0), Ok(0));
    assert_eq!(fee_per_unit(1, 1), Ok(1_000_000));
    assert_eq!(fee_per_unit(1_000_000, 1), Ok(1));
    assert_eq!(fee_per_unit(1_000_001, 1), Ok(0));
    assert_eq!(fee_per_unit(7, 22), Ok(3_142_857));
    assert_eq!(fee_per_unit(u32::MAX, u64::MAX), Ok(4_294_967_297_000_000));
    assert_eq!(fee_per_unit(1_000_000, u64::MAX), Ok(u64::MAX));
}

#[test]
fn fee_per_unit_that_does_not_fit_is_an_overflow() {
    assert_eq!(fee_per_unit(1, u64::MAX), Err(PriorityError::Overflow));
    assert_eq!(fee_per_unit(999_999, u64::MAX), Err(PriorityError::Overflow));
    assert_eq!(fee_per_unit(1, 18_446_744_073_710), Err(PriorityError::Overflow));
    assert_eq!(fee_per_unit(1, 18_446_744_073_709), Ok(18_446_744_073_709_000_000));
}

#[test]
fn fee_per_unit_of_zero_units_is_a_division_by_zero() {
    assert_eq!(fee_per_unit(0, 0), Err(PriorityError::DivisionByZero));
    assert_eq!(fee_per_unit(0, u64::MAX), Err(PriorityError::DivisionByZero));
}

#[test]
fn priority_of_each_directive() {
    let any: [u8; 2] = [3, 0];
    assert_eq!(
        priority_of_directive(Some(ComputeBudgetDirective::SetComputeUnitPrice(12)), &any),
        Ok(Some(12))
    );
    assert_eq!(
        priority_of_directive(
            Some(ComputeBudgetDirective::RequestUnitsDeprecated { units: 4, additional_fee: 2 }),
            &any
        ),
        Ok(Some(500_000))
    );
    assert_eq!(
        priority_of_directive(
            Some(ComputeBudgetDirective::RequestUnitsDeprecated {
                units: 1,
                additional_fee: u64::MAX
            }),
            &any
        ),
        Err(PriorityError::Overflow)
    );
    assert_eq!(
        priority_of_directive(
            Some(ComputeBudgetDirective::RequestUnitsDeprecated { units: 0, additional_fee: 2 }),
            &any
        ),
        Err(PriorityError::DivisionByZero)
    );
    assert_eq!(
        priority_of_directive(Some(ComputeBudgetDirective::RequestHeapFrame(1024)), &any),
        Ok(None)
    );
    assert_eq!(
        priority_of_directive(Some(ComputeBudgetDirective::SetComputeUnitLimit(5)), &any),
        Ok(None)
    );
    assert_eq!(
        priority_of_directive(
            Some(ComputeBudgetDirective::SetLoadedAccountsDataSizeLimit(5)),
            &any
        ),
        Ok(None)
    );
}

#[test]
fn undecoded_payload_is_fatal_only_with_a_priority_tag() {
    assert_eq!(priority_of_directive(None, &[0]), Err(PriorityError::MalformedDirective));
    assert_eq!(priority_of_directive(None, &[3, 9]), Err(PriorityError::MalformedDirective));
    assert_eq!(priority_of_directive(None, &[]), Ok(None));
    assert_eq!(priority_of_directive(None, &[1]), Ok(None));
    assert_eq!(priority_of_directive(None, &[2, 3]), Ok(None));
    assert_eq!(priority_of_directive(None, &[4]), Ok(None));
    assert_eq!(priority_of_directive(None, &[5, 0, 3]), Ok(None));
}
