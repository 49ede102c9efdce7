use devil::filler::Filler;
use devil::quoter::Quoter;
use devil::single_order::SingleOrder;
use devil::solver::Solver;
use devil::{Amount, Vector};

fn amt(v: u128, scale: u8) -> Amount {
    Amount::from_u128_with_scale(v, scale)
}

fn through_bytes(v: &Vector) -> Vector {
    Vector::from_vec(v.to_vec())
}

#[test]
fn lib_test_disolver() {
    let prices = Vector { data: vec![amt(50000_00, 2), amt(5000_00, 2), amt(500_00, 2)] };
    let liquid = Vector { data: vec![amt(0_002, 3), amt(0_020, 3), amt(0_200, 3)] };
    let matrix = Vector {
        data: vec![
            amt(0_001, 3),
            amt(0_010, 3),
            amt(0_010, 3),
            amt(0_100, 3),
            amt(0_100, 3),
            amt(1_000, 3),
        ],
    };
    let collat = Vector { data: vec![amt(150_00, 2), amt(300_00, 2)] };

    let mut solver = Solver::new(
        through_bytes(&prices),
        through_bytes(&liquid),
        through_bytes(&matrix),
        through_bytes(&collat),
    );
    solver.solve().unwrap();

    let iaqtys = through_bytes(&solver.iaqtys);
    let iavals = through_bytes(&solver.iavals);
    let assets = through_bytes(&solver.assets);
    let coeffs = through_bytes(&solver.coeffs);
    let netavs = through_bytes(&solver.netavs);
    let quotes = through_bytes(&solver.quotes);

    assert_eq!(iaqtys.data.len(), matrix.data.len());
    assert_eq!(iavals.data.len(), matrix.data.len());
    assert_eq!(coeffs.data.len(), matrix.data.len());
    assert_eq!(assets.data.len(), prices.data.len());
    assert_eq!(netavs.data.len(), collat.data.len());
    assert_eq!(quotes.data.len(), collat.data.len());

    let axpxes = Vector { data: vec![amt(50000_00, 2), amt(5000_00, 2), amt(500_00, 2)] };
    let axfees = Vector { data: vec![amt(50_00, 2), amt(5_00, 2), amt(0_50, 2)] };
    let axqtys = Vector { data: vec![amt(0_005, 3), amt(0_050, 3), amt(0_500, 3)] };

    let mut filler = Filler::new(
        through_bytes(&axpxes),
        through_bytes(&axfees),
        through_bytes(&axqtys),
        through_bytes(&coeffs),
        through_bytes(&iaqtys),
        through_bytes(&quotes),
        through_bytes(&collat),
    );
    filler.fill().unwrap();

    let ifills = through_bytes(&filler.ifills);
    let ixqtys = through_bytes(&filler.ixqtys);
    let aafees = through_bytes(&filler.aafees);
    let aaqtys = through_bytes(&filler.aaqtys);
    let ccovrs = through_bytes(&filler.ccovrs);
    let acovrs = through_bytes(&filler.acovrs);

    assert_eq!(ifills.data.len(), collat.data.len());
    assert_eq!(ixqtys.data.len(), collat.data.len());
    assert_eq!(aafees.data.len(), coeffs.data.len());
    assert_eq!(aaqtys.data.len(), coeffs.data.len());
    assert_eq!(ccovrs.data.len(), collat.data.len());
    assert_eq!(acovrs.data.len(), prices.data.len());
}

#[test]
fn solver_prices_and_quantities() {
    // One asset priced 10, two orders holding 1 and 2 units, collateral 20 and 80.
    let prices = Vector { data: vec![amt(10, 0)] };
    let liquid = Vector { data: vec![amt(100, 0)] };
    let matrix = Vector { data: vec![amt(1, 0), amt(2, 0)] };
    let collat = Vector { data: vec![amt(20, 0), amt(80, 0)] };
    let mut solver = Solver::new(prices, liquid, matrix, collat);
    let total = solver.solve().unwrap();
    assert_eq!(solver.netavs.data, vec![amt(10, 0), amt(20, 0)]);
    assert_eq!(solver.quotes.data, vec![amt(2, 0), amt(4, 0)]);
    assert_eq!(solver.iaqtys.data, vec![amt(2, 0), amt(8, 0)]);
    assert_eq!(solver.assets.data, vec![amt(10, 0)]);
    assert_eq!(solver.coeffs.data, vec![amt(2, 1), amt(8, 1)]);
    assert_eq!(solver.iavals.data, vec![amt(20, 0), amt(80, 0)]);
    assert_eq!(total, amt(100, 0));
}

#[test]
fn solver_fits_scarce_liquidity() {
    let prices = Vector { data: vec![amt(10, 0)] };
    let liquid = Vector { data: vec![amt(5, 0)] };
    let matrix = Vector { data: vec![amt(1, 0), amt(2, 0)] };
    let collat = Vector { data: vec![amt(20, 0), amt(80, 0)] };
    let mut solver = Solver::new(prices, liquid, matrix, collat);
    let total = solver.solve().unwrap();
    assert_eq!(solver.assets.data, vec![amt(5, 0)]);
    assert_eq!(solver.quotes.data, vec![amt(1, 0), amt(2, 0)]);
    assert_eq!(total, amt(50, 0));
}

#[test]
fn solver_reports_zero_price() {
    let mut solver = Solver::new(
        Vector { data: vec![Amount(0)] },
        Vector { data: vec![amt(1, 0)] },
        Vector { data: vec![amt(1, 0)] },
        Vector { data: vec![amt(1, 0)] },
    );
    assert_eq!(solver.solve(), None);
    assert_eq!(solver.netavs.data, vec![Amount(0)]);
}

#[test]
fn quoter_prices_capacity_and_slope() {
    let prices = Vector { data: vec![amt(10, 0), amt(4, 0)] };
    let liquid = Vector { data: vec![amt(6, 0), amt(100, 0)] };
    let matrix = Vector { data: vec![amt(2, 0), Amount(0), amt(1, 0), amt(5, 0)] };
    let slopes = Vector { data: vec![amt(1, 1), amt(1, 2)] };
    let mut quoter = Quoter::new(prices, liquid, matrix, slopes);
    let total = quoter.quote().unwrap();
    assert_eq!(quoter.netavs.data, vec![amt(24, 0), amt(20, 0)]);
    assert_eq!(quoter.quotes.data, vec![amt(3, 0), amt(20, 0)]);
    assert_eq!(quoter.ixslps.data, vec![amt(41, 2), amt(25, 2)]);
    assert_eq!(total, amt(44, 0));
}

#[test]
fn single_order_quantities() {
    let mut order = SingleOrder::new(Vector { data: vec![amt(25, 1)] }, Vector { data: vec![amt(4, 0)] });
    assert_eq!(order.compute(), Some(amt(4, 0)));
    assert_eq!(order.assets.data, vec![amt(10, 0)]);
    let mut wide = SingleOrder {
        matrix: Vector { data: vec![amt(3, 0)] },
        quotes: Vector { data: vec![amt(2, 0)] },
        assets: Vector { data: vec![amt(9, 0), amt(7, 0)] },
    };
    assert_eq!(wide.compute(), Some(amt(2, 0)));
    assert_eq!(wide.assets.data, vec![amt(6, 0), amt(7, 0)]);
    let mut zero = SingleOrder::new(Vector { data: vec![Amount(0)] }, Vector { data: vec![amt(4, 0)] });
    assert_eq!(zero.compute(), Some(amt(4, 0)));
    assert_eq!(zero.assets.data, vec![Amount(0)]);
}

#[test]
fn filler_caps_assignments() {
    // One asset, one order: the exchange filled 2 units at 10 with fee 1,
    // the order wanted at most 1 unit.
    let mut filler = Filler::new(
        Vector { data: vec![amt(10, 0)] },
        Vector { data: vec![amt(1, 0)] },
        Vector { data: vec![amt(2, 0)] },
        Vector { data: vec![amt(1, 0)] },
        Vector { data: vec![amt(1, 0)] },
        Vector { data: vec![amt(1, 0)] },
        Vector { data: vec![amt(100, 0)] },
    );
    let total = filler.fill().unwrap();
    assert_eq!(filler.ifills.data, vec![amt(1, 0)]);
    assert_eq!(filler.ixqtys.data, vec![amt(1, 0)]);
    assert_eq!(filler.aaqtys.data, vec![amt(1, 0)]);
    assert_eq!(filler.aafees.data, vec![amt(5, 1)]);
    assert_eq!(filler.acovrs.data, vec![amt(1, 0)]);
    assert_eq!(filler.ccovrs.data, vec![amt(895, 1)]);
    assert_eq!(total, amt(10, 0));
}
