use devil::Amount;

fn do_test_amount(lhs: Amount, rhs: Amount) {
    assert_eq!(lhs.0, rhs.0);
}

#[test]
fn test_amount() {
    do_test_amount(Amount::from_u128_with_scale(1_00, 2), Amount::one());
    do_test_amount(Amount::from_u128_with_scale(1_000_000, 6), Amount::one());

    do_test_amount(Amount::from_u128_with_scale(1, 6), Amount::from_u128_with_scale(1_000, 9));
    do_test_amount(
        Amount::from_u128_with_scale(1, 15),
        Amount::from_u128_with_scale(1_000, Amount::DECIMALS as u8),
    );

    do_test_amount(
        Amount::from_u128_with_scale(1_50, 2)
            .checked_add(Amount::from_u128_with_scale(2, 0))
            .unwrap(),
        Amount::from_u128_with_scale(3_5, 1),
    );

    do_test_amount(
        Amount::from_u128_with_scale(3, 0)
            .checked_sub(Amount::from_u128_with_scale(0_5, 1))
            .unwrap(),
        Amount::from_u128_with_scale(2_5, 1),
    );

    do_test_amount(
        Amount::from_u128_with_scale(3, 0)
            .checked_sub(Amount::from_u128_with_scale(3_0, 1))
            .unwrap(),
        Amount::zero(),
    );

    do_test_amount(
        Amount::from_u128_with_scale(1_50, 2)
            .checked_mul(Amount::from_u128_with_scale(2, 0))
            .unwrap(),
        Amount::from_u128_with_scale(3_0, 1),
    );

    do_test_amount(
        Amount::from_u128_with_scale(1_50, 2)
            .checked_mul(Amount::from_u128_with_scale(0_500, 3))
            .unwrap(),
        Amount::from_u128_with_scale(0_75, 2),
    );

    do_test_amount(
        Amount::from_u128_with_scale(3_0, 1)
            .checked_div(Amount::from_u128_with_scale(1_50, 2))
            .unwrap(),
        Amount::from_u128_with_scale(2, 0),
    );

    assert!(Amount::from_u128_with_scale(1, 0).is_less_than(&Amount::from_u128_with_scale(2, 0)));
    assert!(Amount::from_u128_with_scale(2, 1).is_less_than(&Amount::from_u128_with_scale(1, 0)));
}
