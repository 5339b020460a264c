use taranis::price::{calc_price, Prices, SECS_PER_DAY};
use taranis::ErrorKind;

// 2023-10-01 00:00:00 UTC, in seconds since the epoch.
const DAY1: u64 = 1_696_118_400;
const HOUR: u64 = 3600;

fn default_like_table() -> Prices {
    let mut p = Prices::new();
    p.add_period(0, 7 * 3600, 400);
    p.add_period(7 * 3600, 10 * 3600, 700);
    p.add_period(10 * 3600, 15 * 3600, 1000);
    p.add_period(15 * 3600, 18 * 3600, 700);
    p.add_period(18 * 3600, 21 * 3600, 1000);
    p.add_period(21 * 3600, 23 * 3600, 700);
    p.add_period(23 * 3600, 0, 400);
    p.set_service_fee(800);
    assert!(p.optimize().is_ok());
    p
}

#[test]
fn test_prices_optimize() {
    let mut prices = Prices::new();
    prices.add_period(9 * 3600, 12 * 3600, 50_000);
    prices.add_period(11 * 3600, 15 * 3600, 50_000);
    prices.add_period(16 * 3600, 18 * 3600, 75_000);
    let result = prices.optimize();
    assert!(result.is_ok());
    println!("Optimized bands: {:?}", prices.periods);
}

#[test]
fn test_calc_price() {
    let prices = Prices::default();
    let start = DAY1 + 8 * HOUR;
    let end = DAY1 + 20 * HOUR;
    let power = 1000; // 1 kW in watts
    let result = prices.calc_price(start, end, power).unwrap();
    println!("Calculated price: {} cents", result);
    assert_eq!(result, 2010);
    let end2 = DAY1 + 48 * HOUR + 8 * HOUR;
    let result1 = prices.calc_price(start, end2, power).unwrap();
    println!("Calculated price for two days: {} cents", result1);
    let result2 = prices.calc_price(DAY1, DAY1 + 48 * HOUR, power).unwrap();
    println!("Calculated price for two days with midnight: {} cents", result2);
}

#[test]
fn example_day_span_price() {
    // The built-in bands, built by hand and normalized, price a 08:00-20:00
    // span at 1 kW at exactly 20.10 units.
    let p = default_like_table();
    let got = p.calc_price(DAY1 + 8 * HOUR, DAY1 + 20 * HOUR, 1000).unwrap();
    assert_eq!(got, 2010);
    let free = calc_price(&p, DAY1 + 8 * HOUR, DAY1 + 20 * HOUR, 1000).unwrap();
    assert_eq!(free, 2010);
}

#[test]
fn optimize_is_idempotent() {
    let mut p = default_like_table();
    let once = p.periods.clone();
    assert!(p.optimize().is_ok());
    assert_eq!(p.periods, once);
    assert!(p.is_optimized);
}

#[test]
fn optimize_tiles_the_day() {
    let mut p = Prices::new();
    p.add_period(9 * 3600, 12 * 3600, 50_000);
    p.add_period(16 * 3600, 18 * 3600, 75_000);
    assert!(p.optimize().is_ok());
    let bands = &p.periods;
    assert!(!bands.is_empty());
    assert_eq!(bands[0].start, 0);
    assert_eq!(bands[bands.len() - 1].end, SECS_PER_DAY);
    for i in 0..bands.len() {
        assert!(bands[i].start < bands[i].end);
        if i + 1 < bands.len() {
            assert_eq!(bands[i].end, bands[i + 1].start);
        }
    }
}

#[test]
fn optimize_splits_midnight_crossing() {
    let mut p = Prices::new();
    // 23:00 -> 01:00 crosses midnight and must split in two.
    p.add_period(23 * 3600, 3600, 400);
    assert!(p.optimize().is_ok());
    assert_eq!(p.periods[0].start, 0);
    assert_eq!(p.periods[0].end, 3600);
    assert_eq!(p.periods[0].price, 400);
    let last = p.periods[p.periods.len() - 1];
    assert_eq!(last.start, 23 * 3600);
    assert_eq!(last.end, SECS_PER_DAY);
    assert_eq!(last.price, 400);
}

#[test]
fn optimize_rejects_two_midnight_crossings() {
    let mut p = Prices::new();
    p.add_period(23 * 3600, 3600, 400);
    p.add_period(22 * 3600, 7200, 500);
    assert_eq!(p.optimize(), Err(ErrorKind::MultipleMidnightCrossings));
    // the rejected table is untouched
    assert_eq!(p.periods.len(), 2);
    assert!(!p.is_optimized);
}

#[test]
fn optimize_rejects_overlap_with_different_prices() {
    let mut p = Prices::new();
    p.add_period(9 * 3600, 12 * 3600, 50_000);
    p.add_period(10 * 3600, 13 * 3600, 60_000);
    assert_eq!(p.optimize(), Err(ErrorKind::Overlap));
    assert!(!p.is_optimized);
}

#[test]
fn calc_price_rejects_reversed_span() {
    let p = Prices::default();
    assert_eq!(
        p.calc_price(DAY1 + HOUR, DAY1 + HOUR, 1000),
        Err(ErrorKind::InvalidRange)
    );
    assert_eq!(
        p.calc_price(DAY1 + 2 * HOUR, DAY1 + HOUR, 1000),
        Err(ErrorKind::InvalidRange)
    );
}

#[test]
fn calc_price_requires_optimized_table() {
    let mut p = Prices::new();
    p.add_period(0, 0, 400);
    assert_eq!(
        p.calc_price(DAY1, DAY1 + HOUR, 1000),
        Err(ErrorKind::NotOptimized)
    );
}

#[test]
fn empty_table_normalizes_to_a_free_day() {
    // an empty table still normalizes: the whole day becomes one
    // zero-price band, and queries price everything at zero
    let mut empty = Prices::new();
    assert!(empty.optimize().is_ok());
    assert!(empty.is_optimized);
    assert_eq!(empty.periods.len(), 1);
    assert_eq!(empty.periods[0].start, 0);
    assert_eq!(empty.periods[0].end, SECS_PER_DAY);
    assert_eq!(empty.periods[0].price, 0);
    assert_eq!(empty.calc_price(DAY1, DAY1 + HOUR, 1000), Ok(0));
}

#[test]
fn nested_same_price_band_keeps_the_outer_span() {
    // a same-price band nested inside another merges into the union, so
    // the covered seconds keep their price
    let mut p = Prices::new();
    p.add_period(9 * 3600, 15 * 3600, 50_000);
    p.add_period(10 * 3600, 11 * 3600, 50_000);
    assert!(p.optimize().is_ok());
    // 14:00-15:00 is still priced at 50 units/kWh
    let cost = p.calc_price(DAY1 + 14 * HOUR, DAY1 + 15 * HOUR, 1000).unwrap();
    assert_eq!(cost, 5000);
}

#[test]
fn nested_overlap_with_different_price_is_rejected() {
    let mut p = Prices::new();
    p.add_period(9 * 3600, 15 * 3600, 50_000);
    p.add_period(10 * 3600, 11 * 3600, 75_000);
    assert_eq!(p.optimize(), Err(ErrorKind::Overlap));
}

#[test]
fn day_split_additivity_within_tolerance() {
    // Splitting any span at an internal midnight changes the rounded total
    // by at most one cent.
    let p = default_like_table();
    let spans = [
        (DAY1 + 8 * HOUR, DAY1 + 24 * HOUR + 20 * HOUR),
        (DAY1 + 30 * 60, DAY1 + 24 * HOUR + 30 * 60),
        (DAY1, DAY1 + 48 * HOUR),
    ];
    for (s, e) in spans {
        let whole = p.calc_price(s, e, 7_500).unwrap() as i128;
        let m = DAY1 + 24 * HOUR;
        assert!(s < m && m < e);
        let a = p.calc_price(s, m, 7_500).unwrap() as i128;
        let b = p.calc_price(m, e, 7_500).unwrap() as i128;
        assert!((whole - (a + b)).abs() <= 1, "split differs by more than a cent");
    }
}

#[test]
fn gap_periods_price_at_zero() {
    let mut p = Prices::new();
    p.add_period(9 * 3600, 12 * 3600, 50_000);
    assert!(p.optimize().is_ok());
    // outside 09:00-12:00 the day is free
    let cost = p.calc_price(DAY1, DAY1 + 9 * HOUR, 1000).unwrap();
    assert_eq!(cost, 0);
    // one hour inside the band at 50 units/kWh and 1 kW
    let cost2 = p.calc_price(DAY1 + 9 * HOUR, DAY1 + 10 * HOUR, 1000).unwrap();
    assert_eq!(cost2, 5000);
}

#[test]
fn empty_bands_contribute_no_time() {
    // a band whose start equals its end covers nothing and is dropped
    let mut p = Prices::new();
    p.add_period(5 * 3600, 5 * 3600, 90_000);
    assert!(p.optimize().is_ok());
    assert_eq!(p.periods.len(), 1);
    assert_eq!(p.periods[0].start, 0);
    assert_eq!(p.periods[0].end, SECS_PER_DAY);
    assert_eq!(p.periods[0].price, 0);
}

#[test]
fn adding_a_band_unsets_the_normalized_mark() {
    let mut p = default_like_table();
    assert!(p.is_optimized);
    p.add_period(0, 3600, 100);
    assert!(!p.is_optimized);
    assert_eq!(
        p.calc_price(DAY1, DAY1 + HOUR, 1000),
        Err(ErrorKind::NotOptimized)
    );
}
