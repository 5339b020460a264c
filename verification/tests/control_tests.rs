use taranis::charge::Charge;
use taranis::conf::ChargeType;
use taranis::control::{Action, Controller, Event};
use taranis::detail::{ChargeStatus, ChargingDetail};
use taranis::price::Prices;

const T0: u64 = 1_696_147_200_000; // 2023-10-01 08:00:00 UTC, milliseconds
const HOUR_MS: u64 = 3_600_000;

fn fresh_controller(size: u32) -> Controller {
    Controller::new(Charge::new(ChargeType::Fast, 30_000, size), 5000, 1)
}

#[test]
fn new_session_on_idle_station_activates_and_arms_timers() {
    let prices = Prices::default();
    let mut ctl = fresh_controller(2);
    let acts = ctl.step(Event::NewDetail(ChargingDetail::test_new(0)), &prices, T0);
    assert_eq!(acts.len(), 3);
    assert_eq!(acts[0], Action::ArmComplete(HOUR_MS + 100));
    match acts[1] {
        Action::SendUpdate(d) => {
            assert_eq!(d.get_id(), 0);
            assert_eq!(d.status, ChargeStatus::Charging);
            assert_eq!(d.start_time, Some(T0));
        }
        ref other => panic!("expected a SendUpdate, got {:?}", other),
    }
    assert_eq!(acts[2], Action::ArmUpdate(5000));
    assert!(ctl.charge.is_working());
}

#[test]
fn new_session_on_busy_station_only_queues() {
    let prices = Prices::default();
    let mut ctl = fresh_controller(2);
    ctl.step(Event::NewDetail(ChargingDetail::test_new(0)), &prices, T0);
    let acts = ctl.step(Event::NewDetail(ChargingDetail::test_new(1)), &prices, T0);
    assert!(acts.is_empty());
    assert_eq!(ctl.charge.get_queue_size(), 2);
}

#[test]
fn malformed_session_is_ignored() {
    let prices = Prices::default();
    let mut ctl = fresh_controller(2);
    let mut d = ChargingDetail::test_new(0);
    d.already_charged = 5; // not a fresh record
    let acts = ctl.step(Event::NewDetail(d), &prices, T0);
    assert!(acts.is_empty());
    assert_eq!(ctl.charge.get_queue_size(), 0);
}

#[test]
fn update_tick_reports_progress_and_idle_disarms() {
    let prices = Prices::default();
    let mut ctl = fresh_controller(2);
    // idle: the spurious tick just disarms its timer
    let acts = ctl.step(Event::UpdateTick, &prices, T0);
    assert_eq!(acts, vec![Action::DisarmUpdate]);

    ctl.step(Event::NewDetail(ChargingDetail::test_new(0)), &prices, T0);
    let acts = ctl.step(Event::UpdateTick, &prices, T0 + 1_800_000);
    assert_eq!(acts.len(), 1);
    match acts[0] {
        Action::SendUpdate(d) => {
            assert_eq!(d.status, ChargeStatus::Charging);
            assert_eq!(d.already_charged, 15_000);
            assert!(d.total_cost > 0);
        }
        ref other => panic!("expected a SendUpdate, got {:?}", other),
    }
}

#[test]
fn complete_tick_finishes_head_and_activates_next() {
    let prices = Prices::default();
    let mut ctl = fresh_controller(2);
    ctl.step(Event::NewDetail(ChargingDetail::test_new(0)), &prices, T0);
    ctl.step(Event::NewDetail(ChargingDetail::test_new(1)), &prices, T0);

    let acts = ctl.step(Event::CompleteTick, &prices, T0 + HOUR_MS);
    assert_eq!(acts.len(), 6);
    match acts[0] {
        Action::SendComplete(d) => {
            assert_eq!(d.get_id(), 0);
            assert_eq!(d.status, ChargeStatus::Completed);
            assert_eq!(d.already_charged, 30_000);
        }
        ref other => panic!("expected a SendComplete, got {:?}", other),
    }
    assert_eq!(acts[1], Action::DisarmComplete);
    assert_eq!(acts[2], Action::DisarmUpdate);
    assert_eq!(acts[3], Action::ArmComplete(HOUR_MS + 100));
    match acts[4] {
        Action::SendUpdate(d) => assert_eq!(d.get_id(), 1),
        ref other => panic!("expected a SendUpdate, got {:?}", other),
    }
    assert_eq!(acts[5], Action::ArmUpdate(5000));
    assert!(ctl.charge.is_working());
    assert_eq!(ctl.charge.get_queue_size(), 1);

    // a spurious completion tick while idle disarms both timers
    let mut idle = fresh_controller(2);
    let acts = idle.step(Event::CompleteTick, &prices, T0);
    assert_eq!(acts, vec![Action::DisarmComplete, Action::DisarmUpdate]);
}

#[test]
fn cancel_reports_the_removed_session() {
    let prices = Prices::default();
    let mut ctl = fresh_controller(2);
    ctl.step(Event::NewDetail(ChargingDetail::test_new(0)), &prices, T0);
    ctl.step(Event::NewDetail(ChargingDetail::test_new(1)), &prices, T0);

    // cancelling the head bills it and activates the next session
    let acts = ctl.step(Event::CancelDetail(0), &prices, T0 + HOUR_MS / 2);
    assert_eq!(acts.len(), 4);
    match acts[0] {
        Action::SendUpdate(d) => {
            assert_eq!(d.get_id(), 0);
            assert_eq!(d.status, ChargeStatus::Interrupted);
            assert!(d.total_cost > 0);
        }
        ref other => panic!("expected a SendUpdate, got {:?}", other),
    }
    match acts[2] {
        Action::SendUpdate(d) => assert_eq!(d.get_id(), 1),
        ref other => panic!("expected a SendUpdate, got {:?}", other),
    }
    // cancelling an unknown id does nothing
    let acts = ctl.step(Event::CancelDetail(42), &prices, T0 + HOUR_MS);
    assert!(acts.is_empty());
}

#[test]
fn close_and_open_gate_inbound_requests() {
    let prices = Prices::default();
    let mut ctl = fresh_controller(2);
    ctl.step(Event::NewDetail(ChargingDetail::test_new(0)), &prices, T0);

    let acts = ctl.step(Event::CloseStation, &prices, T0 + HOUR_MS / 2);
    assert_eq!(acts.len(), 3);
    assert!(matches!(acts[0], Action::SendUpdate(_)));
    assert_eq!(acts[1], Action::DisarmUpdate);
    assert_eq!(acts[2], Action::DisarmComplete);
    assert!(ctl.closed);
    assert_eq!(ctl.charge.get_queue_size(), 0);

    // while closed, new work and a second close are ignored
    let acts = ctl.step(Event::NewDetail(ChargingDetail::test_new(1)), &prices, T0);
    assert!(acts.is_empty());
    let acts = ctl.step(Event::CloseStation, &prices, T0);
    assert!(acts.is_empty());

    // reopening leaves the timers disarmed and accepts work again
    let acts = ctl.step(Event::OpenStation, &prices, T0);
    assert_eq!(acts, vec![Action::DisarmUpdate, Action::DisarmComplete]);
    assert!(!ctl.closed);
    let acts = ctl.step(Event::OpenStation, &prices, T0);
    assert!(acts.is_empty());
    let acts = ctl.step(Event::NewDetail(ChargingDetail::test_new(2)), &prices, T0);
    assert_eq!(acts.len(), 3);
}

#[test]
fn breakdown_faults_and_closes_the_connection() {
    let prices = Prices::default();
    let mut ctl = fresh_controller(2);
    ctl.step(Event::NewDetail(ChargingDetail::test_new(0)), &prices, T0);

    let acts = ctl.step(Event::Breakdown, &prices, T0 + HOUR_MS / 2);
    assert_eq!(acts.len(), 4);
    match acts[0] {
        Action::SendFault(Some(d)) => {
            assert_eq!(d.get_id(), 0);
            assert_eq!(d.status, ChargeStatus::Interrupted);
        }
        ref other => panic!("expected a fault with the head, got {:?}", other),
    }
    assert_eq!(acts[3], Action::CloseConnection);
    assert_eq!(ctl.charge.get_queue_size(), 0);

    // an idle station faults with no session
    let mut idle = fresh_controller(2);
    let acts = idle.step(Event::Breakdown, &prices, T0);
    assert_eq!(
        acts,
        vec![
            Action::SendFault(None),
            Action::DisarmComplete,
            Action::DisarmUpdate,
            Action::CloseConnection,
        ]
    );
}
