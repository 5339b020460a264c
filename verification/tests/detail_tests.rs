use taranis::conf::ChargeType;
use taranis::detail::{ChargeStatus, ChargingDetail};
use taranis::ErrorKind;

const T0: u64 = 1_696_147_200_000; // 2023-10-01 08:00:00 UTC, milliseconds

#[test]
fn ready_means_waiting_with_all_zero_fields() {
    let d = ChargingDetail::new(7, 30_000, ChargeType::Fast);
    assert!(d.is_ready());
    assert_eq!(d.status, ChargeStatus::Waiting);

    let mut started = d;
    assert!(started.start(T0).is_ok());
    assert!(!started.is_ready());

    let mut nonzero = d;
    nonzero.already_charged = 1;
    assert!(!nonzero.is_ready());

    let mut costed = d;
    costed.total_cost = 1;
    assert!(!costed.is_ready());
}

#[test]
fn out_of_order_calls_fail_without_mutating() {
    let mut d = ChargingDetail::new(1, 30_000, ChargeType::Fast);
    let before = d;
    // a Waiting session cannot be updated or completed
    assert_eq!(d.update_state(5, 10, 2, T0), Err(ErrorKind::InvalidState));
    assert_eq!(d, before);
    assert_eq!(d.complete(5, 10, 2, T0), Err(ErrorKind::InvalidState));
    assert_eq!(d, before);

    assert!(d.start(T0).is_ok());
    assert_eq!(d.status, ChargeStatus::Charging);
    // a Charging session cannot start again
    let running = d;
    assert_eq!(d.start(T0 + 1000), Err(ErrorKind::InvalidState));
    assert_eq!(d, running);

    assert!(d.complete(30_000, 1050, 960, T0 + 3_600_000).is_ok());
    assert_eq!(d.status, ChargeStatus::Completed);
    assert_eq!(d.total_cost, 2010);
    assert_eq!(d.end_time, Some(T0 + 3_600_000));
    // terminal states are final
    let finished = d;
    assert_eq!(d.start(T0), Err(ErrorKind::InvalidState));
    assert_eq!(d.interrupt(0, 0, 0, T0), Err(ErrorKind::InvalidState));
    assert_eq!(d, finished);
}

#[test]
fn interrupt_from_waiting_keeps_zero_costs() {
    let mut d = ChargingDetail::new(2, 30_000, ChargeType::Slow);
    assert!(d.interrupt(0, 0, 0, T0).is_ok());
    assert_eq!(d.status, ChargeStatus::Interrupted);
    assert_eq!(d.total_cost, 0);
    assert_eq!(d.start_time, None);
    assert_eq!(d.last_update_time, Some(T0));
}

#[test]
fn update_sums_costs_into_total() {
    let mut d = ChargingDetail::new(3, 30_000, ChargeType::Fast);
    assert!(d.start(T0).is_ok());
    assert!(d.update_state(15_000, 525, 480, T0 + 1_800_000).is_ok());
    assert_eq!(d.already_charged, 15_000);
    assert_eq!(d.charge_cost, 525);
    assert_eq!(d.service_fee, 480);
    assert_eq!(d.total_cost, 1005);
    assert_eq!(d.status, ChargeStatus::Charging);
    assert_eq!(d.start_time, Some(T0));
    assert_eq!(d.last_update_time, Some(T0 + 1_800_000));
}

#[test]
fn estimated_end_time_comes_from_remaining_energy() {
    let mut d = ChargingDetail::test_new(4);
    assert_eq!(d.request_amount, 30_000);
    assert_eq!(d.get_estimated_end_time(30_000), None);
    assert!(d.start(T0).is_ok());
    // 30 kWh at 30 kW is one hour
    assert_eq!(d.get_estimated_end_time(30_000), Some(T0 + 3_600_000));
    // half delivered: half an hour left
    assert!(d.update_state(15_000, 0, 0, T0).is_ok());
    assert_eq!(d.get_estimated_end_time(30_000), Some(T0 + 1_800_000));
}

#[test]
fn overshot_delivery_estimates_before_the_start() {
    // once more energy has been delivered than was asked for, the
    // estimated completion lies before the start, by the overshoot at the
    // charging power
    let mut d = ChargingDetail::test_new(6);
    assert!(d.start(T0).is_ok());
    assert!(d.update_state(36_000, 0, 0, T0).is_ok());
    // 6 kWh over at 30 kW is twelve minutes
    assert_eq!(d.get_estimated_end_time(30_000), Some(T0 - 720_000));
}

#[test]
fn clone_start_time_reads_the_stamp() {
    let mut d = ChargingDetail::new(5, 1_000, ChargeType::Fast);
    assert!(d.start(T0).is_ok());
    assert_eq!(d.clone_start_time(), T0);
    assert_eq!(d.get_id(), 5);
    assert_eq!(d.get_type(), ChargeType::Fast);
}
