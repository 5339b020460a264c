use taranis::charge::Charge;
use taranis::conf::ChargeType;
use taranis::detail::{ChargeStatus, ChargingDetail};
use taranis::price::Prices;
use taranis::ErrorKind;

const T0: u64 = 1_696_147_200_000; // 2023-10-01 08:00:00 UTC, milliseconds
const HOUR_MS: u64 = 3_600_000;

#[test]
fn enqueue_then_activate_one_hour_job() {
    // A 30 kWh request at 30 kW is a one-hour job: activation starts the
    // head and the completion interval is about an hour over the
    // acceleration factor.
    let mut c = Charge::new(ChargeType::Fast, 30_000, 2);
    assert!(c.add_detail(ChargingDetail::test_new(0)).is_ok());
    assert!(!c.is_working());
    assert!(c.start_charging(T0));
    assert!(c.is_working());
    let head = c.get_charging_detail_ref().unwrap();
    assert_eq!(head.status, ChargeStatus::Charging);
    assert_eq!(c.complete_interval(T0, 1), HOUR_MS + 100);
    assert_eq!(c.complete_interval(T0, 4), (HOUR_MS + 100) / 4);
    // a second activation is a no-op
    assert!(!c.start_charging(T0));
}

#[test]
fn add_detail_rejects_mismatch_and_overflow() {
    let mut c = Charge::new(ChargeType::Fast, 30_000, 2);
    let slow = ChargingDetail::new(9, 1_000, ChargeType::Slow);
    assert_eq!(c.add_detail(slow), Err(ErrorKind::TypeMismatch));
    assert!(c.add_detail(ChargingDetail::test_new(0)).is_ok());
    assert!(c.add_detail(ChargingDetail::test_new(1)).is_ok());
    assert_eq!(
        c.add_detail(ChargingDetail::test_new(2)),
        Err(ErrorKind::CapacityExceeded)
    );
    assert_eq!(c.get_queue_size(), 2);
}

#[test]
fn update_and_complete_bill_the_head() {
    let prices = Prices::default();
    let mut c = Charge::new(ChargeType::Fast, 1_000, 2);
    assert!(c.add_detail(ChargingDetail::new(1, 30_000, ChargeType::Fast)).is_ok());
    assert!(c.start_charging(T0));
    // after twelve hours at 1 kW under the built-in bands: 10.50 energy,
    // 9.60 fee, 12 kWh delivered
    assert!(c.update_charging(&prices, T0 + 12 * HOUR_MS).is_ok());
    let head = *c.get_charging_detail_ref().unwrap();
    assert_eq!(head.already_charged, 12_000);
    assert_eq!(head.charge_cost, 1050);
    assert_eq!(head.service_fee, 960);
    assert_eq!(head.total_cost, 2010);
    assert_eq!(head.status, ChargeStatus::Charging);

    let done = c.complete_charging(&prices, T0 + 12 * HOUR_MS).unwrap();
    assert_eq!(done.status, ChargeStatus::Completed);
    assert_eq!(done.total_cost, 2010);
    assert_eq!(done.end_time, Some(T0 + 12 * HOUR_MS));
    assert!(!c.is_working());
    assert_eq!(c.get_queue_size(), 0);
    // completing an idle station yields nothing
    assert!(c.complete_charging(&prices, T0 + 13 * HOUR_MS).is_none());
}

#[test]
fn update_idle_station_is_rejected() {
    let prices = Prices::default();
    let mut c = Charge::new(ChargeType::Fast, 1_000, 2);
    assert_eq!(
        c.update_charging(&prices, T0),
        Err(ErrorKind::InvalidState)
    );
}

#[test]
fn cancel_head_bills_it_and_idles_the_station() {
    let prices = Prices::default();
    let mut c = Charge::new(ChargeType::Fast, 1_000, 2);
    assert!(c.add_detail(ChargingDetail::new(10, 30_000, ChargeType::Fast)).is_ok());
    assert!(c.start_charging(T0));
    assert!(c.add_detail(ChargingDetail::new(11, 30_000, ChargeType::Fast)).is_ok());

    let cancelled = c.cancel_charging(10, &prices, T0 + HOUR_MS).unwrap();
    assert_eq!(cancelled.status, ChargeStatus::Interrupted);
    assert!(cancelled.total_cost > 0);
    assert!(!c.is_working());
    assert_eq!(c.get_queue_size(), 1);
    assert_eq!(c.get_charging_detail_ref().unwrap().get_id(), 11);
}

#[test]
fn cancel_queued_session_is_free_and_keeps_the_head() {
    let prices = Prices::default();
    let mut c = Charge::new(ChargeType::Fast, 1_000, 2);
    assert!(c.add_detail(ChargingDetail::new(10, 30_000, ChargeType::Fast)).is_ok());
    assert!(c.start_charging(T0));
    assert!(c.add_detail(ChargingDetail::new(11, 30_000, ChargeType::Fast)).is_ok());

    let cancelled = c.cancel_charging(11, &prices, T0 + HOUR_MS).unwrap();
    assert_eq!(cancelled.status, ChargeStatus::Interrupted);
    assert_eq!(cancelled.total_cost, 0);
    assert_eq!(cancelled.already_charged, 0);
    assert!(c.is_working());
    assert_eq!(c.get_charging_detail_ref().unwrap().get_id(), 10);
    assert_eq!(c.get_queue_size(), 1);
}

#[test]
fn cancel_unknown_id_is_not_found() {
    let prices = Prices::default();
    let mut c = Charge::new(ChargeType::Fast, 1_000, 2);
    assert!(c.add_detail(ChargingDetail::new(10, 30_000, ChargeType::Fast)).is_ok());
    assert_eq!(
        c.cancel_charging(99, &prices, T0),
        Err(ErrorKind::NotFound)
    );
    assert_eq!(c.get_queue_size(), 1);
}

#[test]
fn close_returns_only_the_head_and_discards_the_rest() {
    let prices = Prices::default();
    let mut c = Charge::new(ChargeType::Fast, 1_000, 3);
    assert!(c.add_detail(ChargingDetail::new(1, 30_000, ChargeType::Fast)).is_ok());
    assert!(c.start_charging(T0));
    assert!(c.add_detail(ChargingDetail::new(2, 30_000, ChargeType::Fast)).is_ok());
    assert!(c.add_detail(ChargingDetail::new(3, 30_000, ChargeType::Fast)).is_ok());

    let head = c.close(&prices, T0 + HOUR_MS).unwrap();
    assert_eq!(head.get_id(), 1);
    assert_eq!(head.status, ChargeStatus::Interrupted);
    assert!(head.total_cost > 0);
    assert_eq!(c.get_queue_size(), 0);
    assert!(!c.is_working());
    // closing again finds nothing
    assert!(c.close(&prices, T0 + 2 * HOUR_MS).is_none());
}

#[test]
fn breakdown_acts_like_close() {
    let prices = Prices::default();
    let mut c = Charge::new(ChargeType::Fast, 1_000, 2);
    assert!(c.add_detail(ChargingDetail::new(1, 30_000, ChargeType::Fast)).is_ok());
    assert!(c.start_charging(T0));
    let head = c.breakdown(&prices, T0 + HOUR_MS).unwrap();
    assert_eq!(head.status, ChargeStatus::Interrupted);
    assert_eq!(c.get_queue_size(), 0);
    assert!(!c.is_working());
}

#[test]
fn complete_interval_stays_positive_while_working() {
    // even when the acceleration factor swallows the whole remaining
    // duration, the completion timer is never armed for zero
    let mut c = Charge::new(ChargeType::Fast, 30_000, 2);
    assert!(c.add_detail(ChargingDetail::new(0, 1, ChargeType::Fast)).is_ok());
    assert!(c.start_charging(T0));
    assert_eq!(c.complete_interval(T0, 101), 1);
    assert_eq!(c.complete_interval(T0, 1), 100);
}

#[test]
fn billing_truncates_to_whole_elapsed_seconds() {
    // costs accrue over whole seconds of the elapsed difference: 900
    // elapsed milliseconds bill nothing, 1100 bill one second
    let prices = Prices::default();
    let mut c = Charge::new(ChargeType::Fast, 1_000, 2);
    assert!(c.add_detail(ChargingDetail::new(1, 30_000, ChargeType::Fast)).is_ok());
    assert!(c.start_charging(T0 + 1500));
    assert!(c.update_charging(&prices, T0 + 2400).is_ok());
    let head = *c.get_charging_detail_ref().unwrap();
    assert_eq!(head.already_charged, 0);
    assert_eq!(head.total_cost, 0);
    assert!(c.update_charging(&prices, T0 + 2600).is_ok());
    let head = *c.get_charging_detail_ref().unwrap();
    // one second at 1 kW: 1/3600 kWh, (0.7 + 0.8)/kWh rounds to 0.00
    assert_eq!(head.already_charged, 0);
    assert_eq!(head.charge_cost, 0);
}

#[test]
fn complete_interval_is_zero_when_idle() {
    let mut c = Charge::new(ChargeType::Fast, 30_000, 2);
    assert_eq!(c.complete_interval(T0, 1), 0);
    assert!(c.add_detail(ChargingDetail::test_new(0)).is_ok());
    assert_eq!(c.complete_interval(T0, 1), 0);
}
