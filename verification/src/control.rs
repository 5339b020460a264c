//! The station controller: the event loop's decisions as one transition
//! function from an event to station mutations and outbound actions. The
//! surrounding loop only waits on its sources, performs the returned
//! actions, and hands the next event back in.

use vstd::prelude::*;

use crate::charge::Charge;
use crate::charge::spec_billed_head;
use crate::charge::spec_complete_interval;
use crate::charge::spec_zero_interrupted;
use crate::conf::MAX_SPEED;
use crate::detail::ChargeStatus;
use crate::detail::ChargingDetail;
use crate::detail::MAX_ENERGY_MILLI;
use crate::price::Prices;
use crate::time::MAX_TS_MS;

verus! {

/// One input the event loop can wake on.
#[derive(Clone, Copy, Debug, PartialEq, Eq)]
pub enum Event {
    /// An inbound new-session request, already decoded.
    NewDetail(ChargingDetail),
    /// An inbound cancellation for the session with this id.
    CancelDetail(u32),
    /// An administrative close.
    CloseStation,
    /// An administrative reopen.
    OpenStation,
    /// The update timer fired.
    UpdateTick,
    /// The completion timer fired.
    CompleteTick,
    /// The breakdown trigger fired.
    Breakdown,
}

/// One effect the loop must carry out after a step, in the order returned.
#[derive(Clone, Copy, Debug, PartialEq, Eq)]
pub enum Action {
    /// Report this session's current record.
    SendUpdate(ChargingDetail),
    /// Report this session completed.
    SendComplete(ChargingDetail),
    /// Report a fault, with the interrupted session if one was active.
    SendFault(Option<ChargingDetail>),
    /// Arm the one-shot update timer for this many milliseconds.
    ArmUpdate(u64),
    /// Arm the one-shot completion timer for this many milliseconds.
    ArmComplete(u64),
    /// Drop the update timer.
    DisarmUpdate,
    /// Drop the completion timer.
    DisarmComplete,
    /// Close the outbound channel and leave the loop.
    CloseConnection,
}

/// The head session as `start_charging` stamps it at `now_ms`.
pub open spec fn spec_started(h: ChargingDetail, now_ms: int) -> ChargingDetail {
    ChargingDetail {
        start_time: Some(now_ms as u64),
        last_update_time: Some(now_ms as u64),
        status: ChargeStatus::Charging,
        ..h
    }
}

/// The controller: the station under its lock, the open/closed flag, and
/// the timer settings.
pub struct Controller {
    pub charge: Charge,
    /// Set by an administrative close; inbound requests are then ignored
    /// until an open.
    pub closed: bool,
    /// Update-timer interval, in milliseconds.
    pub update_interval: u64,
    /// Clock acceleration factor, for scaling timer durations.
    pub speed: u64,
}

impl Controller {
    pub open spec fn inv(&self) -> bool {
        &&& self.charge.inv()
        &&& 1 <= self.speed <= MAX_SPEED
    }

    /// A controller around a station, initially open.
    pub fn new(charge: Charge, update_interval: u64, speed: u64) -> (r: Self)
        requires
            charge.inv(),
            1 <= speed <= MAX_SPEED,
        ensures
            r.inv(),
            r.charge == charge,
            !r.closed,
            r.update_interval == update_interval,
            r.speed == speed,
    {
        Controller { charge, closed: false, update_interval, speed }
    }

    /// When the station is idle with work queued, starts the head and emits
    /// the activation protocol: arm the completion timer from the head's
    /// estimate, report the started head, arm the update timer.
    fn activate(&mut self, now_ms: u64) -> (acts: Vec<Action>)
        requires
            old(self).inv(),
            now_ms <= MAX_TS_MS,
        ensures
            final(self).inv(),
            final(self).closed == old(self).closed,
            final(self).update_interval == old(self).update_interval,
            final(self).speed == old(self).speed,
            old(self).charge.working || old(self).charge.queue@.len() == 0 ==> acts@ =~= Seq::<
                Action,
            >::empty() && final(self).charge == old(self).charge,
            !old(self).charge.working && old(self).charge.queue@.len() > 0 ==> ({
                let started = spec_started(old(self).charge.queue@[0], now_ms as int);
                &&& final(self).charge.queue@ == old(self).charge.queue@.update(0, started)
                &&& final(self).charge.working
                &&& final(self).charge.charge_id == old(self).charge.charge_id
                &&& final(self).charge.type_ == old(self).charge.type_
                &&& final(self).charge.power == old(self).charge.power
                &&& final(self).charge.size == old(self).charge.size
                &&& acts@ =~= seq![
                    Action::ArmComplete(
                        spec_complete_interval(
                            final(self).charge,
                            now_ms as int,
                            old(self).speed as int,
                        ) as u64,
                    ),
                    Action::SendUpdate(started),
                    Action::ArmUpdate(old(self).update_interval),
                ]
            }),
    {
        let mut acts: Vec<Action> = Vec::new();
        if !self.charge.is_working() && self.charge.get_queue_size() > 0 {
            let transitioned = self.charge.start_charging(now_ms);
            proof {
                assert(transitioned);
            }
            let ci = self.charge.complete_interval(now_ms, self.speed);
            acts.push(Action::ArmComplete(ci));
            match self.charge.get_charging_detail_ref() {
                Some(d) => {
                    let dd = *d;
                    acts.push(Action::SendUpdate(dd));
                },
                None => {
                    proof {
                        assert(false);
                    }
                },
            }
            acts.push(Action::ArmUpdate(self.update_interval));
        }
        acts
    }

    /// Handles one event: mutates the station and returns, in order, the
    /// sends and timer changes the loop must carry out.
    ///
    /// Inbound requests are ignored while the controller is closed; a close
    /// while closed and an open while open are ignored likewise. Timer
    /// firings on an idle station only disarm their timer. A breakdown
    /// always ends with the connection closed.
    #[verifier::rlimit(100)]
    #[verifier::spinoff_prover]
    pub fn step(&mut self, event: Event, prices: &Prices, now_ms: u64) -> (acts: Vec<Action>)
        requires
            old(self).inv(),
            prices.inv(),
            prices.is_optimized,
            now_ms <= MAX_TS_MS,
        ensures
            final(self).inv(),
            final(self).update_interval == old(self).update_interval,
            final(self).speed == old(self).speed,
            final(self).charge.charge_id == old(self).charge.charge_id,
            final(self).charge.type_ == old(self).charge.type_,
            final(self).charge.power == old(self).charge.power,
            final(self).charge.size == old(self).charge.size,
            event matches Event::NewDetail(d) ==> ({
                &&& final(self).closed == old(self).closed
                &&& old(self).closed ==> *final(self) == *old(self) && acts@ =~= Seq::<
                    Action,
                >::empty()
                &&& !old(self).closed && (!d.spec_is_ready() || d.request_amount
                    > MAX_ENERGY_MILLI) ==> *final(self) == *old(self) && acts@ =~= Seq::<
                    Action,
                >::empty()
                &&& !old(self).closed && d.spec_is_ready() && d.request_amount <= MAX_ENERGY_MILLI
                    && (d.type_ != old(self).charge.type_ || old(self).charge.queue@.len() >= old(self).charge.size) ==> *final(self) == *old(self) && acts@ =~= Seq::<Action>::empty()
                &&& !old(self).closed && d.spec_is_ready() && d.request_amount <= MAX_ENERGY_MILLI
                    && d.type_ == old(self).charge.type_ && old(self).charge.queue@.len() < old(self).charge.size ==> ({
                    let q1 = old(self).charge.queue@.push(d);
                    let started = spec_started(q1[0], now_ms as int);
                    &&& old(self).charge.working ==> final(self).charge.queue@ == q1 && final(self).charge.working && acts@ =~= Seq::<Action>::empty()
                    &&& !old(self).charge.working ==> final(self).charge.queue@ == q1.update(
                        0,
                        started,
                    ) && final(self).charge.working && acts@ =~= seq![
                        Action::ArmComplete(
                            spec_complete_interval(
                                final(self).charge,
                                now_ms as int,
                                old(self).speed as int,
                            ) as u64,
                        ),
                        Action::SendUpdate(started),
                        Action::ArmUpdate(old(self).update_interval),
                    ]
                })
            }),
            event matches Event::CancelDetail(id) ==> ({
                &&& final(self).closed == old(self).closed
                &&& old(self).closed ==> *final(self) == *old(self) && acts@ =~= Seq::<
                    Action,
                >::empty()
                &&& !old(self).closed && (forall|i: int|
                    0 <= i < old(self).charge.queue@.len() ==> (#[trigger] old(self).charge.queue@[i]).id != id) ==> *final(self) == *old(self) && acts@ =~= Seq::<
                    Action,
                >::empty()
                &&& !old(self).closed ==> forall|pos: int|
                    (0 <= pos < old(self).charge.queue@.len() && (#[trigger] old(self).charge.queue@[pos]).id == id && (forall|i: int|
                        0 <= i < pos ==> (#[trigger] old(self).charge.queue@[i]).id != id)) ==> ({
                        let removed = if pos == 0 && old(self).charge.working {
                            spec_billed_head(
                                old(self).charge,
                                *prices,
                                now_ms as int,
                                ChargeStatus::Interrupted,
                            )
                        } else {
                            spec_zero_interrupted(old(self).charge.queue@[pos], now_ms as int)
                        };
                        let q1 = old(self).charge.queue@.remove(pos);
                        let working1 = if pos == 0 {
                            false
                        } else {
                            old(self).charge.working
                        };
                        let started = spec_started(q1[0], now_ms as int);
                        &&& !working1 && q1.len() > 0 ==> final(self).charge.queue@ == q1.update(
                            0,
                            started,
                        ) && final(self).charge.working && acts@ =~= seq![
                            Action::SendUpdate(removed),
                            Action::ArmComplete(
                                spec_complete_interval(
                                    final(self).charge,
                                    now_ms as int,
                                    old(self).speed as int,
                                ) as u64,
                            ),
                            Action::SendUpdate(started),
                            Action::ArmUpdate(old(self).update_interval),
                        ]
                        &&& working1 || q1.len() == 0 ==> final(self).charge.queue@ == q1 && final(self).charge.working == working1 && acts@ =~= seq![Action::SendUpdate(removed)]
                    })
            }),
            event == Event::CloseStation ==> ({
                &&& old(self).closed ==> *final(self) == *old(self) && acts@ =~= Seq::<
                    Action,
                >::empty()
                &&& !old(self).closed ==> ({
                    &&& final(self).closed
                    &&& final(self).charge.queue@.len() == 0
                    &&& !final(self).charge.working
                    &&& old(self).charge.queue@.len() == 0 ==> acts@ =~= seq![
                        Action::DisarmUpdate,
                        Action::DisarmComplete,
                    ]
                    &&& old(self).charge.queue@.len() > 0 ==> acts@ =~= seq![
                        Action::SendUpdate(
                            if old(self).charge.working {
                                spec_billed_head(
                                    old(self).charge,
                                    *prices,
                                    now_ms as int,
                                    ChargeStatus::Interrupted,
                                )
                            } else {
                                spec_zero_interrupted(old(self).charge.queue@[0], now_ms as int)
                            },
                        ),
                        Action::DisarmUpdate,
                        Action::DisarmComplete,
                    ]
                })
            }),
            event == Event::OpenStation ==> ({
                &&& final(self).charge == old(self).charge
                &&& !old(self).closed ==> final(self).closed == old(self).closed && acts@ =~= Seq::<
                    Action,
                >::empty()
                &&& old(self).closed ==> !final(self).closed && acts@ =~= seq![
                    Action::DisarmUpdate,
                    Action::DisarmComplete,
                ]
            }),
            event == Event::UpdateTick ==> ({
                &&& final(self).closed == old(self).closed
                &&& !old(self).charge.working ==> *final(self) == *old(self) && acts@ =~= seq![
                    Action::DisarmUpdate,
                ]
                &&& old(self).charge.working ==> ({
                    let updated = spec_billed_head(
                        old(self).charge,
                        *prices,
                        now_ms as int,
                        ChargeStatus::Charging,
                    );
                    &&& final(self).charge.queue@ == old(self).charge.queue@.update(0, updated)
                    &&& final(self).charge.working
                    &&& acts@ =~= seq![Action::SendUpdate(updated)]
                })
            }),
            event == Event::CompleteTick ==> ({
                &&& final(self).closed == old(self).closed
                &&& !old(self).charge.working ==> *final(self) == *old(self) && acts@ =~= seq![
                    Action::DisarmComplete,
                    Action::DisarmUpdate,
                ]
                &&& old(self).charge.working ==> ({
                    let done = spec_billed_head(
                        old(self).charge,
                        *prices,
                        now_ms as int,
                        ChargeStatus::Completed,
                    );
                    let q1 = old(self).charge.queue@.subrange(
                        1,
                        old(self).charge.queue@.len() as int,
                    );
                    let started = spec_started(q1[0], now_ms as int);
                    &&& q1.len() == 0 ==> final(self).charge.queue@ == q1 && !final(self).charge.working && acts@ =~= seq![
                        Action::SendComplete(done),
                        Action::DisarmComplete,
                        Action::DisarmUpdate,
                    ]
                    &&& q1.len() > 0 ==> final(self).charge.queue@ == q1.update(0, started)
                        && final(self).charge.working && acts@ =~= seq![
                        Action::SendComplete(done),
                        Action::DisarmComplete,
                        Action::DisarmUpdate,
                        Action::ArmComplete(
                            spec_complete_interval(
                                final(self).charge,
                                now_ms as int,
                                old(self).speed as int,
                            ) as u64,
                        ),
                        Action::SendUpdate(started),
                        Action::ArmUpdate(old(self).update_interval),
                    ]
                })
            }),
            event == Event::Breakdown ==> ({
                &&& final(self).closed == old(self).closed
                &&& !old(self).charge.working ==> final(self).charge == old(self).charge && acts@
                    =~= seq![
                    Action::SendFault(None),
                    Action::DisarmComplete,
                    Action::DisarmUpdate,
                    Action::CloseConnection,
                ]
                &&& old(self).charge.working ==> final(self).charge.queue@.len() == 0 && !final(self).charge.working && acts@ =~= seq![
                    Action::SendFault(
                        Some(
                            spec_billed_head(
                                old(self).charge,
                                *prices,
                                now_ms as int,
                                ChargeStatus::Interrupted,
                            ),
                        ),
                    ),
                    Action::DisarmComplete,
                    Action::DisarmUpdate,
                    Action::CloseConnection,
                ]
            }),
    {
        match event {
            Event::NewDetail(d) => {
                let mut acts: Vec<Action> = Vec::new();
                if self.closed {
                    return acts;
                }
                if !d.is_ready() || d.request_amount > MAX_ENERGY_MILLI {
                    return acts;
                }
                match self.charge.add_detail(d) {
                    Ok(()) => {
                        let mut tail = self.activate(now_ms);
                        acts.append(&mut tail);
                    },
                    Err(_) => {},
                }
                acts
            },
            Event::CancelDetail(id) => {
                let mut acts: Vec<Action> = Vec::new();
                if self.closed {
                    return acts;
                }
                match self.charge.cancel_charging(id, prices, now_ms) {
                    Ok(d) => {
                        acts.push(Action::SendUpdate(d));
                        let mut tail = self.activate(now_ms);
                        acts.append(&mut tail);
                    },
                    Err(_) => {},
                }
                acts
            },
            Event::CloseStation => {
                let mut acts: Vec<Action> = Vec::new();
                if self.closed {
                    return acts;
                }
                match self.charge.close(prices, now_ms) {
                    Some(d) => {
                        acts.push(Action::SendUpdate(d));
                    },
                    None => {},
                }
                acts.push(Action::DisarmUpdate);
                acts.push(Action::DisarmComplete);
                self.closed = true;
                acts
            },
            Event::OpenStation => {
                let mut acts: Vec<Action> = Vec::new();
                if !self.closed {
                    return acts;
                }
                acts.push(Action::DisarmUpdate);
                acts.push(Action::DisarmComplete);
                self.closed = false;
                acts
            },
            Event::UpdateTick => {
                let mut acts: Vec<Action> = Vec::new();
                if self.charge.is_working() {
                    let res = self.charge.update_charging(prices, now_ms);
                    proof {
                        assert(res is Ok);
                    }
                    match self.charge.get_charging_detail_ref() {
                        Some(d) => {
                            let dd = *d;
                            acts.push(Action::SendUpdate(dd));
                        },
                        None => {
                            proof {
                                assert(false);
                            }
                        },
                    }
                } else {
                    acts.push(Action::DisarmUpdate);
                }
                acts
            },
            Event::CompleteTick => {
                let mut acts: Vec<Action> = Vec::new();
                if self.charge.is_working() {
                    match self.charge.complete_charging(prices, now_ms) {
                        Some(d) => {
                            acts.push(Action::SendComplete(d));
                            acts.push(Action::DisarmComplete);
                            acts.push(Action::DisarmUpdate);
                            let mut tail = self.activate(now_ms);
                            acts.append(&mut tail);
                        },
                        None => {
                            proof {
                                assert(false);
                            }
                        },
                    }
                } else {
                    acts.push(Action::DisarmComplete);
                    acts.push(Action::DisarmUpdate);
                }
                acts
            },
            Event::Breakdown => {
                let mut acts: Vec<Action> = Vec::new();
                if self.charge.is_working() {
                    match self.charge.breakdown(prices, now_ms) {
                        Some(d) => {
                            acts.push(Action::SendFault(Some(d)));
                            acts.push(Action::DisarmComplete);
                            acts.push(Action::DisarmUpdate);
                        },
                        None => {
                            proof {
                                assert(false);
                            }
                        },
                    }
                } else {
                    acts.push(Action::SendFault(None));
                    acts.push(Action::DisarmComplete);
                    acts.push(Action::DisarmUpdate);
                }
                acts.push(Action::CloseConnection);
                acts
            },
        }
    }
}

} // verus!
