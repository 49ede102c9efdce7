use devil::opcodes::{
    OP_ADD, OP_B, OP_DIV, OP_IMMS, OP_LDR, OP_LDV, OP_MIN, OP_MUL, OP_POPN, OP_SQRT, OP_STR,
    OP_STV, OP_SUB, OP_SWAP, OP_T, OP_UNPK,
};
use devil::{Amount, Labels, MemoryStore, Program, Stack, Vector, VectorIO};

#[test]
fn program_test_compute_1() {
    let mut vio = MemoryStore::new();
    let assets_id: u128 = 101;
    let weights_id: u128 = 102;
    let quote_id: u128 = 201;
    let order_id: u128 = 301;
    let order_quantities_id: u128 = 401;
    let solve_quadratic_id: u128 = 901;

    vio.store_labels(assets_id, Labels { data: vec![1001, 1002, 1003] }).unwrap();

    vio.store_vector(
        weights_id,
        Vector {
            data: vec![
                Amount::from_u128_with_scale(0_100, 3),
                Amount::from_u128_with_scale(1_000, 3),
                Amount::from_u128_with_scale(100_0, 1),
            ],
        },
    )
    .unwrap();

    vio.store_vector(
        quote_id,
        Vector {
            data: vec![
                Amount::from_u128_with_scale(10_00, 2),
                Amount::from_u128_with_scale(10_000, 0),
                Amount::from_u128_with_scale(100_0, 1),
            ],
        },
    )
    .unwrap();

    vio.store_vector(
        order_id,
        Vector {
            data: vec![
                Amount::from_u128_with_scale(1000_00, 2),
                Amount::from_u128_with_scale(0, 0),
                Amount::from_u128_with_scale(0, 0),
            ],
        },
    )
    .unwrap();

    let solve_quadratic_vectorized = vec![
        OP_STR, 1,
        OP_STR, 2,
        OP_STR, 3,
        OP_LDR, 2,
        OP_MUL, 0,
        OP_STR, 4,
        OP_LDR, 1, OP_LDR, 3, OP_MUL, 1,
        OP_IMMS, Amount::four().to_u128_raw(), OP_MUL, 1,
        OP_LDR, 4,
        OP_ADD, 1,
        OP_SQRT,
        OP_STR, 5,
        OP_LDR, 5, OP_LDR, 2,
        OP_MIN, 1,
        OP_SWAP, 1,
        OP_SUB, 1,
        OP_LDR, 1, OP_IMMS, Amount::two().to_u128_raw(),
        OP_SWAP, 1,
        OP_MUL, 1,
        OP_SWAP, 2,
        OP_DIV, 2,
    ];

    vio.store_labels(solve_quadratic_id, Labels { data: solve_quadratic_vectorized }).unwrap();

    let reg_weights: u128 = 0;
    let reg_collateral: u128 = 1;

    let code = vec![
        OP_LDV, weights_id,
        OP_STR, reg_weights,
        OP_LDV, order_id,
        OP_UNPK,
        OP_POPN, 2,
        OP_STR, reg_collateral,
        OP_LDV, quote_id,
        OP_UNPK,
        OP_POPN, 1,
        OP_LDR, reg_collateral,
        OP_B, solve_quadratic_id, 3, 1, 8,
        OP_LDR, reg_weights,
        OP_MUL, 1,
        OP_STV, order_quantities_id,
    ];

    let num_registers = 8;

    let mut program = Program::new(vio);
    let mut stack = Stack::new(num_registers);
    let result = program.execute_with_stack(code, &mut stack);

    if let Err(err) = result {
        panic!("Failed to execute test: {:?}", err);
    }

    let vio = &program.vio;
    let order = vio.load_vector(order_id).unwrap();
    let quote = vio.load_vector(quote_id).unwrap();
    let weigths = vio.load_vector(weights_id).unwrap();
    let order_quantites = vio.load_vector(order_quantities_id).unwrap();

    assert_eq!(
        order.data,
        vec![
            Amount::from_u128_with_scale(1000, 0),
            Amount::from_u128_with_scale(0, 0),
            Amount::from_u128_with_scale(0, 0),
        ]
    );

    assert_eq!(
        quote.data,
        vec![
            Amount::from_u128_with_scale(10, 0),
            Amount::from_u128_with_scale(10_000, 0),
            Amount::from_u128_with_scale(100, 0),
        ]
    );

    assert_eq!(
        weigths.data,
        vec![
            Amount::from_u128_with_scale(1, 1),
            Amount::from_u128_with_scale(1, 0),
            Amount::from_u128_with_scale(100, 0),
        ]
    );

    assert_eq!(
        order_quantites.data,
        vec![Amount(99990001999500), Amount(999900019995001), Amount(99990001999500100)]
    );
}

fn run_transpose_check() {
    let mut vio = MemoryStore::new();
    let num_registers = 8;

    let a = |x: u128| Amount::from_u128_with_scale(x, 0);

    let vector1_id: u128 = 100;
    let vector2_id: u128 = 101;
    let expected1_id: u128 = 102;
    let expected2_id: u128 = 103;
    let expected3_id: u128 = 104;
    let delta_id: u128 = 105;

    vio.store_vector(vector1_id, Vector { data: vec![a(1), a(2), a(3)] }).unwrap();
    vio.store_vector(vector2_id, Vector { data: vec![a(4), a(5), a(6)] }).unwrap();
    vio.store_vector(expected1_id, Vector { data: vec![a(1), a(4)] }).unwrap();
    vio.store_vector(expected2_id, Vector { data: vec![a(2), a(5)] }).unwrap();
    vio.store_vector(expected3_id, Vector { data: vec![a(3), a(6)] }).unwrap();

    let code = vec![
        OP_LDV, vector1_id,
        OP_LDV, vector2_id,
        OP_T, 2,
        OP_LDV, expected1_id,
        OP_LDV, expected2_id,
        OP_LDV, expected3_id,
        OP_SUB, 3,
        OP_SWAP, 1,
        OP_SUB, 4,
        OP_SWAP, 2,
        OP_SUB, 5,
        OP_ADD, 1,
        OP_ADD, 2,
        OP_STV, delta_id,
    ];

    let mut stack = Stack::new(num_registers);
    let mut program = Program::new(vio);

    if let Err(err) = program.execute_with_stack(code, &mut stack) {
        panic!("Failed to execute test: {:?}", err);
    }

    let delta = program.vio.load_vector(delta_id).unwrap();

    assert_eq!(delta.data, vec![Amount::zero(); 2]);
}

#[test]
fn program_test_transpose() {
    run_transpose_check();
}

#[test]
fn test_test_transpose() {
    run_transpose_check();
}

fn solve_quadratic() -> Vec<u128> {
    vec![
        OP_STR, 1, OP_STR, 2, OP_STR, 3, OP_LDR, 2, OP_MUL, 0, OP_STR, 4, OP_LDR, 1, OP_LDR, 3,
        OP_MUL, 1, OP_IMMS, Amount::four().to_u128_raw(), OP_MUL, 1, OP_LDR, 4, OP_ADD, 1,
        OP_SQRT, OP_STR, 5, OP_LDR, 5, OP_LDR, 2, OP_MIN, 1, OP_SWAP, 1, OP_SUB, 1, OP_LDR, 1,
        OP_IMMS, Amount::two().to_u128_raw(), OP_SWAP, 1, OP_MUL, 1, OP_SWAP, 2, OP_DIV, 2,
    ]
}

/// Buys an index: the order's collateral (C), the quote's price (P) and
/// slope (S) go to the quadratic solver, and its result scales the weights.
fn execute_buy_order(
    order_id: u128,
    weights_id: u128,
    quote_id: u128,
    solve_quadratic_id: u128,
    order_quantities_id: u128,
) -> Vec<u128> {
    vec![
        OP_LDV, weights_id, OP_STR, 0,
        OP_LDV, order_id, OP_UNPK, OP_POPN, 2, OP_STR, 1,
        OP_LDR, 1, OP_LDV, quote_id, OP_UNPK, OP_SWAP, 2, OP_POPN, 1, OP_SWAP, 1,
        OP_B, solve_quadratic_id, 3, 1, 8,
        OP_LDR, 0, OP_MUL, 1, OP_STV, order_quantities_id,
    ]
}

#[test]
fn test_test_compute_1() {
    let mut vio = MemoryStore::new();
    let assets_id: u128 = 101;
    let weights_id: u128 = 102;
    let quote_id: u128 = 201;
    let order_id: u128 = 301;
    let order_quantities_id: u128 = 401;
    let solve_quadratic_id: u128 = 901;
    let a = |v: u128, s: u8| Amount::from_u128_with_scale(v, s);

    vio.store_labels(assets_id, Labels { data: vec![1001, 1002, 1003] }).unwrap();
    vio.store_vector(weights_id, Vector { data: vec![a(100, 3), a(1000, 3), a(1000, 1)] }).unwrap();
    vio.store_vector(quote_id, Vector { data: vec![a(1000, 2), a(10_000, 0), a(1000, 1)] }).unwrap();
    vio.store_vector(order_id, Vector { data: vec![a(100000, 2), a(0, 0), a(0, 0)] }).unwrap();
    vio.store_labels(solve_quadratic_id, Labels { data: solve_quadratic() }).unwrap();

    let code = execute_buy_order(order_id, weights_id, quote_id, solve_quadratic_id, order_quantities_id);
    // P = 10 000
    // S = 100
    // C = 1000

    let num_registers = 8;
    let mut program = Program::new(vio);
    let mut stack = Stack::new(num_registers);
    if let Err(err) = program.execute_with_stack(code, &mut stack) {
        panic!("Failed to execute test: {:?}", err);
    }

    let vio = &program.vio;
    let order = vio.load_vector(order_id).unwrap();
    let quote = vio.load_vector(quote_id).unwrap();
    let weigths = vio.load_vector(weights_id).unwrap();
    let order_quantites = vio.load_vector(order_quantities_id).unwrap();

    assert_eq!(order.data, vec![a(1000, 0), a(0, 0), a(0, 0)]);
    assert_eq!(quote.data, vec![a(10, 0), a(10_000, 0), a(100, 0)]);
    assert_eq!(weigths.data, vec![a(1, 1), a(1, 0), a(100, 0)]);
    assert_eq!(
        order_quantites.data,
        vec![Amount(9990019950139581), Amount(99900199501395813), Amount(9990019950139581300)]
    );
}
