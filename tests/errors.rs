use devil::interp::Limits;
use devil::opcodes::{OP_ADD, OP_B, OP_FOLD, OP_LDL, OP_LDV, OP_STV};
use devil::{Amount, ErrorCode, Labels, MemoryStore, Operand, Program, Stack, Vector, VectorIO};

fn vector(xs: &[Amount]) -> Operand {
    Operand::Vector(Vector { data: xs.to_vec() })
}

fn labels(xs: &[u128]) -> Operand {
    Operand::Labels(Labels { data: xs.to_vec() })
}

#[test]
fn stack_underflow_on_empty_stack() {
    let mut stack = Stack::new(1);
    assert_eq!(stack.add(0), Err(ErrorCode::StackUnderflow));
    assert_eq!(stack.op_popn(1), Err(ErrorCode::StackUnderflow));
    assert_eq!(stack.pkv(1), Err(ErrorCode::StackUnderflow));
    assert_eq!(stack.op_popn(0), Ok(()));
    assert_eq!(stack.pkv(0), Ok(()));
    assert_eq!(stack.depth(), 1);
}

#[test]
fn out_of_range_positions_and_registers() {
    let mut stack = Stack::new(2);
    stack.imms(1).unwrap();
    assert_eq!(stack.ldd(1), Err(ErrorCode::OutOfRange));
    assert_eq!(stack.ldr(2), Err(ErrorCode::OutOfRange));
    assert_eq!(stack.op_str(5), Err(ErrorCode::OutOfRange));
    assert_eq!(stack.ldr(0), Err(ErrorCode::InvalidOperand));
    stack.op_str(0).unwrap();
    stack.ldr(0).unwrap();
    stack.ldr(0).unwrap();
    assert_eq!(stack.depth(), 2);
}

#[test]
fn invalid_operands_and_alignment() {
    let mut stack = Stack::new(0);
    stack.push(vector(&[Amount(1), Amount(2)]));
    stack.push(vector(&[Amount(1)]));
    assert_eq!(stack.add(1), Err(ErrorCode::NotAligned));
    stack.imml(3).unwrap();
    assert_eq!(stack.add(0), Err(ErrorCode::InvalidOperand));
    assert_eq!(stack.pkv(2), Err(ErrorCode::InvalidOperand));
    assert_eq!(stack.depth(), 3);
}

#[test]
fn math_errors() {
    let mut stack = Stack::new(0);
    stack.imms(1).unwrap();
    stack.imms(0).unwrap();
    assert_eq!(stack.sub(1), Err(ErrorCode::MathUnderflow));
    stack.imms(u128::MAX).unwrap();
    assert_eq!(stack.add(0), Err(ErrorCode::MathOverflow));
    stack.imms(0).unwrap();
    stack.swap(1).unwrap();
    assert_eq!(stack.div(1), Err(ErrorCode::MathOverflow));
    let mut sums = Stack::new(0);
    sums.push(vector(&[Amount(u128::MAX), Amount(1)]));
    assert_eq!(sums.vsum(), Err(ErrorCode::MathOverflow));
}

#[test]
fn join_errors() {
    let mut stack = Stack::new(0);
    stack.push(labels(&[10, 20]));
    stack.push(labels(&[15]));
    stack.push(vector(&[Amount(1), Amount(2)]));
    stack.push(vector(&[Amount(1)]));
    assert_eq!(stack.jadd(3, 2), Err(ErrorCode::MathUnderflow));
    assert_eq!(stack.jadd(1, 2), Err(ErrorCode::InvalidOperand));
    assert_eq!(stack.jxpnd(3, 2), Err(ErrorCode::NotAligned));
    let mut unsorted = Stack::new(0);
    unsorted.push(labels(&[20, 10]));
    unsorted.push(labels(&[10]));
    unsorted.push(vector(&[Amount(1), Amount(2)]));
    unsorted.push(vector(&[Amount(1)]));
    assert_eq!(unsorted.jadd(3, 2), Err(ErrorCode::NotFound));
    let mut widen = Stack::new(0);
    widen.push(labels(&[1, 2]));
    widen.push(labels(&[1, 3]));
    widen.imms(0).unwrap();
    widen.push(vector(&[Amount(1), Amount(2)]));
    assert_eq!(widen.jxpnd(3, 2), Err(ErrorCode::NotFound));
    assert_eq!(widen.jfltr(3, 2), Err(ErrorCode::NotFound));
}

#[test]
fn program_errors() {
    let mut program = Program::new(MemoryStore::new());
    let mut stack = Stack::new(0);
    assert_eq!(program.execute_with_stack(vec![999], &mut stack), Err(ErrorCode::InvalidInstruction));
    assert_eq!(program.execute_with_stack(vec![OP_LDV], &mut stack), Err(ErrorCode::InvalidInstruction));
    assert_eq!(program.execute_with_stack(vec![OP_LDL, 4], &mut stack), Err(ErrorCode::NotFound));
    assert_eq!(program.execute_with_stack(vec![OP_B, 4, 0, 0, 0], &mut stack), Err(ErrorCode::NotFound));
    program.vio.store_labels(4, Labels { data: vec![OP_B, 4, 0, 0, 0] }).unwrap();
    assert_eq!(program.execute_with_stack(vec![OP_B, 4, 0, 0, 0], &mut stack), Err(ErrorCode::StackOverflow));
    program.vio.store_labels(5, Labels { data: vec![OP_ADD, 0] }).unwrap();
    assert_eq!(
        program.execute_with_stack(vec![OP_B, 5, 1, 0, 0], &mut Stack::new(0)),
        Err(ErrorCode::StackUnderflow)
    );
    assert_eq!(
        program.execute_with_stack(vec![OP_B, 5, 0, 0, 1_000_000], &mut Stack::new(0)),
        Err(ErrorCode::StackOverflow)
    );
    let mut s = Stack::new(0);
    s.imms(1).unwrap();
    assert_eq!(program.execute_with_stack(vec![OP_FOLD, 5, 0, 0, 0], &mut s), Err(ErrorCode::InvalidOperand));
    let mut s = Stack::new(0);
    s.imms(1).unwrap();
    assert_eq!(program.execute_with_stack(vec![OP_STV, 1], &mut s), Err(ErrorCode::InvalidOperand));
}

#[test]
fn asset_side_bits() {
    assert_eq!(devil::asset::get_side(0b1101), devil::asset::SIDE_LONG);
    assert_eq!(devil::asset::get_side(0b1110), devil::asset::SIDE_SHORT);
    assert_eq!(devil::asset::get_asset_id(0b1111), 0b1100);
    assert_eq!(devil::asset::get_asset_id(u128::MAX), u128::MAX - 3);
}

#[test]
fn builder_programs() {
    assert!(devil::programs::update_quote(1, 2, 3, 4, 5, 6, 7, 8, 9).is_empty());
    assert_eq!(
        devil::programs::update_supply(42, 0, 0, 0, 0, 0, 0),
        vec![devil::opcodes::OP_LDV, 42]
    );
}

#[test]
fn writes_happen_in_program_order() {
    let mut vio = MemoryStore::new();
    vio.store_vector(1, Vector { data: vec![Amount(5)] }).unwrap();
    let mut program = Program::new(vio);
    let mut stack = Stack::new(0);
    let code = vec![OP_LDV, 1, OP_STV, 2, OP_LDV, 2, OP_STV, 3, OP_LDL, 77];
    assert_eq!(program.execute_with_stack(code, &mut stack), Err(ErrorCode::NotFound));
    // The writes before the failing load were made; undoing them is the host's transaction.
    assert_eq!(program.vio.load_vector(2).unwrap().data, vec![Amount(5)]);
    assert_eq!(program.vio.load_vector(3).unwrap().data, vec![Amount(5)]);
}

#[test]
fn host_limits_bound_a_run() {
    let limits = Limits { max_depth: 4, max_registers: 4, max_fold: 2, max_stack: 2, max_code: 8 };
    let mut program = Program::with_limits(MemoryStore::new(), limits);
    let mut stack = Stack::new(0);
    assert_eq!(
        program.execute_with_stack(vec![devil::opcodes::OP_IMMS, 1, devil::opcodes::OP_IMMS, 2], &mut stack),
        Ok(())
    );
    let mut stack = Stack::new(0);
    assert_eq!(
        program.execute_with_stack(
            vec![devil::opcodes::OP_IMMS, 1, devil::opcodes::OP_IMMS, 2, devil::opcodes::OP_IMMS, 3],
            &mut stack
        ),
        Err(ErrorCode::StackOverflow)
    );
    let mut stack = Stack::new(0);
    assert_eq!(program.execute_with_stack(vec![devil::opcodes::OP_UNPK; 9], &mut stack), Err(ErrorCode::StackOverflow));
    program.vio.store_labels(3, Labels { data: vec![] }).unwrap();
    let mut stack = Stack::new(0);
    stack.push(vector(&[Amount(1), Amount(2), Amount(3)]));
    assert_eq!(program.execute_with_stack(vec![OP_FOLD, 3, 0, 0, 0], &mut stack), Err(ErrorCode::StackOverflow));
}
