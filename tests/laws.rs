use devil::{Amount, ErrorCode, Labels, Operand, Stack, Vector};

fn amt(v: u128, scale: u8) -> Amount {
    Amount::from_u128_with_scale(v, scale)
}

fn vector(xs: &[Amount]) -> Operand {
    Operand::Vector(Vector { data: xs.to_vec() })
}

fn labels(xs: &[u128]) -> Operand {
    Operand::Labels(Labels { data: xs.to_vec() })
}

fn vector_at(stack: &Stack, i: usize) -> Vec<Amount> {
    match &stack.stack[i] {
        Operand::Vector(v) => v.data.clone(),
        _ => panic!("not a vector"),
    }
}

#[test]
fn scale_round_trip_two_decimals() {
    for v in [0u128, 1, 150, 99_999, 340_282_366_920_938_463_463] {
        assert_eq!(Amount::from_u128_with_scale(v, 2).to_u128_with_scale(2), v);
    }
    assert_eq!(amt(150, 2).0, 1_500_000_000_000_000_000);
    assert_eq!(amt(1, 20).0, 0);
    assert_eq!(amt(10u128.pow(30), 40).0, 100_000_000);
    assert_eq!(amt(123_456_789, 45).0, 0);
    assert_eq!(amt(u128::MAX, 56).0, u128::MAX / 10u128.pow(38));
    assert_eq!(amt(u128::MAX, 77).0, 0);
}

#[test]
fn checked_arithmetic_bounds() {
    let max = Amount::max_value();
    assert_eq!(max.checked_add(Amount(0)), Some(max));
    assert_eq!(max.checked_add(Amount(1)), None);
    assert_eq!(Amount(3).checked_sub(Amount(3)), Some(Amount(0)));
    assert_eq!(Amount(3).checked_sub(Amount(4)), None);
    assert_eq!(Amount(3).saturating_sub(Amount(4)), Amount(0));
    assert_eq!(amt(2, 0).checked_mul(amt(3, 0)), Some(amt(6, 0)));
    assert_eq!(max.checked_mul(amt(2, 0)), None);
    assert_eq!(amt(1, 0).checked_div(Amount(0)), None);
    assert_eq!(amt(1, 0).checked_div(amt(4, 0)), Some(amt(25, 2)));
    assert_eq!(max.checked_div(amt(5, 1)), None);
    assert_eq!(amt(4, 0).checked_sqrt(), Some(amt(2, 0)));
    assert_eq!(amt(2, 0).checked_sqrt(), Some(Amount(1_414_213_562_373_095_048)));
    assert_eq!(Amount(2).checked_sqrt(), Some(Amount(1_414_213_562)));
    assert_eq!(max.checked_sqrt().unwrap().0, 18_446_744_073_709_551_615_999_999_999);
    assert_eq!(Amount(7).min(Amount(3)), Amount(3));
    assert_eq!(Amount(7).max(Amount(3)), Amount(7));
}

#[test]
fn byte_forms_round_trip() {
    let l = Labels { data: vec![0, 1, u128::MAX, 0x0102_0304] };
    let bytes = l.to_vec();
    assert_eq!(bytes.len(), 64);
    assert_eq!(&bytes[48..52], &[4, 3, 2, 1]);
    assert_eq!(Labels::from_vec(bytes).data, l.data);
    let v = Vector { data: vec![amt(1, 0), Amount::max_value(), Amount(0)] };
    assert_eq!(Vector::from_vec(v.to_vec()).data, v.data);
    let mut out = Vec::new();
    amt(15, 1).to_vec(&mut out);
    assert_eq!(out.len(), 16);
    assert_eq!(Amount::from_slice(&out), amt(15, 1));
    assert!(Labels::from_vec(Vec::new()).data.is_empty());
}

#[test]
fn union_of_ascending_labels() {
    let mut stack = Stack::new(0);
    stack.push(labels(&[2, 4, 6, 8]));
    stack.push(labels(&[1, 4, 9]));
    stack.lunion(1).unwrap();
    match stack.stack.last() {
        Some(Operand::Labels(l)) => assert_eq!(l.data, vec![1, 2, 4, 6, 8, 9]),
        _ => panic!("not labels"),
    }
    let mut stack = Stack::new(0);
    stack.push(labels(&[]));
    stack.push(labels(&[3]));
    stack.lunion(1).unwrap();
    match stack.stack.last() {
        Some(Operand::Labels(l)) => assert_eq!(l.data, vec![3]),
        _ => panic!("not labels"),
    }
}

#[test]
fn joins_on_equal_labels_are_plain_vector_ops() {
    let l = [5u128, 6, 7];
    let carrier = [amt(3, 0), amt(1, 0), amt(2, 0)];
    let addend = [amt(1, 0), amt(2, 0), amt(2, 0)];
    let mut stack = Stack::new(0);
    stack.push(labels(&l));
    stack.push(labels(&l));
    stack.push(vector(&carrier));
    stack.push(vector(&addend));
    let mut plain = Stack::new(0);
    plain.push(vector(&carrier));
    plain.push(vector(&addend));
    stack.jadd(3, 2).unwrap();
    plain.add(1).unwrap();
    assert_eq!(vector_at(&stack, 3), vector_at(&plain, 1));
    let mut stack = Stack::new(0);
    stack.push(labels(&l));
    stack.push(labels(&l));
    stack.push(vector(&carrier));
    stack.push(vector(&addend));
    stack.jssb(3, 2).unwrap();
    assert_eq!(vector_at(&stack, 3), vec![amt(2, 0), Amount(0), Amount(0)]);
}

#[test]
fn transpose_twice_restores() {
    let a = |x: u128| amt(x, 0);
    let mut stack = Stack::new(0);
    stack.push(vector(&[a(1), a(2), a(3)]));
    stack.push(vector(&[a(4), a(5), a(6)]));
    stack.transpose(2).unwrap();
    assert_eq!(stack.depth(), 3);
    assert_eq!(vector_at(&stack, 0), vec![a(1), a(4)]);
    assert_eq!(vector_at(&stack, 2), vec![a(3), a(6)]);
    stack.transpose(3).unwrap();
    assert_eq!(stack.depth(), 2);
    assert_eq!(vector_at(&stack, 0), vec![a(1), a(2), a(3)]);
    assert_eq!(vector_at(&stack, 1), vec![a(4), a(5), a(6)]);
    let mut one = Stack::new(0);
    one.push(vector(&[a(1), a(2)]));
    one.transpose(1).unwrap();
    assert_eq!(one.depth(), 2);
    assert_eq!(one.transpose(0), Err(ErrorCode::InvalidOperand));
}
