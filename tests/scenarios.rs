use devil::opcodes::{
    OP_ADD, OP_DIV, OP_FOLD, OP_IMMS, OP_JADD, OP_JFLTR, OP_JXPND, OP_LDL, OP_LDS, OP_LDV,
    OP_LUNION, OP_MIN, OP_MUL, OP_POPN, OP_SQRT, OP_STR, OP_STS, OP_STV, OP_SUB, OP_SWAP,
    OP_LDR, OP_VSUM,
};
use devil::{Amount, ErrorCode, Labels, MemoryStore, Operand, Program, Stack, Vector, VectorIO};

fn amt(v: u128, scale: u8) -> Amount {
    Amount::from_u128_with_scale(v, scale)
}

fn vector(xs: &[Amount]) -> Operand {
    Operand::Vector(Vector { data: xs.to_vec() })
}

fn labels(xs: &[u128]) -> Operand {
    Operand::Labels(Labels { data: xs.to_vec() })
}

fn top_vector(stack: &Stack) -> Vec<Amount> {
    match stack.stack.last() {
        Some(Operand::Vector(v)) => v.data.clone(),
        _ => panic!("top is not a vector"),
    }
}

fn top_labels(stack: &Stack) -> Vec<u128> {
    match stack.stack.last() {
        Some(Operand::Labels(l)) => l.data.clone(),
        _ => panic!("top is not a label sequence"),
    }
}

fn top_scalar(stack: &Stack) -> Amount {
    match stack.stack.last() {
        Some(Operand::Scalar(x)) => *x,
        _ => panic!("top is not a scalar"),
    }
}

#[test]
fn scenario_scalar_arithmetic() {
    let mut stack = Stack::new(0);
    stack.imms(amt(150, 2).to_u128_raw()).unwrap();
    stack.imms(amt(2, 0).to_u128_raw()).unwrap();
    stack.add(1).unwrap();
    assert_eq!(top_scalar(&stack), amt(35, 1));
}

#[test]
fn scenario_vector_self_multiply() {
    let mut stack = Stack::new(0);
    stack.push(vector(&[amt(2, 0), amt(3, 0), amt(4, 0)]));
    stack.mul(0).unwrap();
    assert_eq!(top_vector(&stack), vec![amt(4, 0), amt(9, 0), amt(16, 0)]);
}

#[test]
fn scenario_mixed_vector_scalar_divide() {
    let mut stack = Stack::new(0);
    stack.push(vector(&[amt(10, 0), amt(20, 0), amt(30, 0)]));
    stack.imms(amt(2, 0).to_u128_raw()).unwrap();
    // A scalar on top cannot be combined with a vector below it.
    assert_eq!(stack.div(1), Err(ErrorCode::InvalidOperand));
    stack.swap(1).unwrap();
    stack.div(1).unwrap();
    assert_eq!(top_vector(&stack), vec![amt(5, 0), amt(10, 0), amt(15, 0)]);
    stack.swap(1).unwrap();
    stack.op_popn(1).unwrap();
    assert_eq!(top_vector(&stack), vec![amt(5, 0), amt(10, 0), amt(15, 0)]);
    assert_eq!(stack.depth(), 1);
}

#[test]
fn scenario_sorted_union() {
    let mut stack = Stack::new(0);
    stack.push(labels(&[1, 3, 5]));
    stack.push(labels(&[2, 3, 7]));
    stack.lunion(1).unwrap();
    assert_eq!(top_labels(&stack), vec![1, 2, 3, 5, 7]);
}

#[test]
fn scenario_merge_join_add() {
    let mut stack = Stack::new(0);
    stack.push(labels(&[10, 20, 30]));
    stack.push(labels(&[20]));
    stack.push(vector(&[amt(1, 0), amt(2, 0), amt(3, 0)]));
    stack.push(vector(&[amt(5, 1)]));
    stack.jadd(3, 2).unwrap();
    assert_eq!(top_vector(&stack), vec![amt(1, 0), amt(25, 1), amt(3, 0)]);
}

#[test]
fn scenario_expand_then_filter() {
    let va = vec![amt(1, 0), amt(3, 0)];
    let mut stack = Stack::new(0);
    stack.push(labels(&[10, 30]));
    stack.push(labels(&[5, 10, 20, 30, 40]));
    stack.imms(0).unwrap();
    stack.push(vector(&va));
    stack.jxpnd(3, 2).unwrap();
    assert_eq!(
        top_vector(&stack),
        vec![Amount::zero(), amt(1, 0), Amount::zero(), amt(3, 0), Amount::zero()]
    );
    stack.jfltr(2, 3).unwrap();
    assert_eq!(top_vector(&stack), va);
}

fn solve_quadratic_code() -> Vec<u128> {
    vec![
        OP_STR, 1, OP_STR, 2, OP_STR, 3, OP_LDR, 2, OP_MUL, 0, OP_STR, 4, OP_LDR, 1, OP_LDR, 3,
        OP_MUL, 1, OP_IMMS, Amount::four().to_u128_raw(), OP_MUL, 1, OP_LDR, 4, OP_ADD, 1,
        OP_SQRT, OP_STR, 5, OP_LDR, 5, OP_LDR, 2, OP_MIN, 1, OP_SWAP, 1, OP_SUB, 1, OP_LDR, 1,
        OP_IMMS, Amount::two().to_u128_raw(), OP_SWAP, 1, OP_MUL, 1, OP_SWAP, 2, OP_DIV, 2,
    ]
}

#[test]
fn scenario_quadratic_solve() {
    let mut vio = MemoryStore::new();
    let (s_id, p_id, c_id, out_id, prg_id): (u128, u128, u128, u128, u128) = (1, 2, 3, 4, 9);
    vio.store_scalar(s_id, amt(100, 0)).unwrap();
    vio.store_scalar(p_id, amt(10_000, 0)).unwrap();
    vio.store_scalar(c_id, amt(1000, 0)).unwrap();
    vio.store_labels(prg_id, Labels { data: solve_quadratic_code() }).unwrap();
    let code = vec![
        OP_LDS, c_id, OP_LDS, p_id, OP_LDS, s_id, devil::opcodes::OP_B, prg_id, 3, 1, 8, OP_STS,
        out_id,
    ];
    let mut program = Program::new(vio);
    let mut stack = Stack::new(0);
    program.execute_with_stack(code, &mut stack).unwrap();
    let x = program.vio.load_scalar(out_id).unwrap();
    assert_eq!(x, Amount(99_900_199_501_395_813));
    assert_eq!(x.0 / 10_000_000, amt(999001995, 10).0 / 10_000_000);
}

#[test]
fn fold_sum_matches_vsum() {
    let xs = vec![amt(1, 0), amt(25, 1), amt(7, 3)];
    let mut vio = MemoryStore::new();
    vio.store_labels(7, Labels { data: vec![OP_ADD, 1, OP_SWAP, 1, OP_POPN, 1] }).unwrap();
    vio.store_vector(1, Vector { data: xs.clone() }).unwrap();
    let code = vec![OP_IMMS, 0, OP_LDV, 1, OP_FOLD, 7, 1, 1, 0, OP_STS, 2, OP_LDV, 1, OP_VSUM, OP_STS, 3];
    let mut program = Program::new(vio);
    let mut stack = Stack::new(0);
    program.execute_with_stack(code, &mut stack).unwrap();
    let folded = program.vio.load_scalar(2).unwrap();
    let summed = program.vio.load_scalar(3).unwrap();
    assert_eq!(folded, summed);
    assert_eq!(folded, amt(3507, 3));
}

#[test]
fn execute_runs_byte_code() {
    let mut vio = MemoryStore::new();
    vio.store_labels(1, Labels { data: vec![4, 6] }).unwrap();
    let code = Labels { data: vec![OP_LDL, 1, OP_IMMS, 5, OP_STS, 8, OP_LDL, 1, OP_LUNION, 0, OP_POPN, 1] };
    let mut program = Program::new(vio);
    program.execute(code.to_vec(), 2).unwrap();
    assert_eq!(program.vio.load_scalar(8).unwrap(), Amount(5));
    let mut short = code.to_vec();
    short.pop();
    assert_eq!(program.execute(short, 2), Err(ErrorCode::InvalidInstruction));
}

#[test]
fn stores_only_on_write_instructions() {
    let mut vio = MemoryStore::new();
    vio.store_vector(1, Vector { data: vec![amt(1, 0)] }).unwrap();
    let mut program = Program::new(vio);
    let mut stack = Stack::new(0);
    program.execute_with_stack(vec![OP_LDV, 1, OP_LDV, 1, OP_ADD, 1], &mut stack).unwrap();
    assert_eq!(program.vio.load_vector(1).unwrap().data, vec![amt(1, 0)]);
    assert_eq!(program.vio.load_vector(2).map(|v| v.data), Err(ErrorCode::NotFound));
    program.execute_with_stack(vec![OP_STV, 2], &mut stack).unwrap();
    assert_eq!(program.vio.load_vector(2).unwrap().data, vec![amt(2, 0)]);
}

#[test]
fn same_store_same_result() {
    let build = || {
        let mut vio = MemoryStore::new();
        vio.store_vector(1, Vector { data: vec![amt(3, 0), amt(4, 0)] }).unwrap();
        vio
    };
    let code = vec![OP_LDV, 1, OP_MUL, 0, OP_SQRT, OP_STV, 2];
    let mut p1 = Program::new(build());
    let mut p2 = Program::new(build());
    let r1 = p1.execute_with_stack(code.clone(), &mut Stack::new(0));
    let r2 = p2.execute_with_stack(code, &mut Stack::new(0));
    assert_eq!(r1, r2);
    assert_eq!(p1.vio.load_vector(2).unwrap().data, p2.vio.load_vector(2).unwrap().data);
    assert_eq!(p1.vio.load_vector(2).unwrap().data, vec![amt(3, 0), amt(4, 0)]);
}
