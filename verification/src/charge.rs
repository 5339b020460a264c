//! The charging station: a bounded queue of sessions served one at a time,
//! billed against the tariff table.

use vstd::prelude::*;

use crate::ErrorKind;
use crate::conf::ChargeType;
use crate::conf::MAX_SPEED;
use crate::detail::ChargeStatus;
use crate::detail::ChargingDetail;
use crate::detail::MAX_COST_CENTS;
use crate::detail::MAX_DELIVERED_MILLI;
use crate::price::MAX_POWER_MILLI;
use crate::price::MAX_TS_SEC;
use crate::price::Prices;
use crate::price::cents_of;
use crate::price::lemma_price_cents_bounds;
use crate::price::spec_span_energy;
use crate::price::spec_span_fee;
use crate::time::MAX_TS_MS;

verus! {

/// Relies on uuid::Uuid::new_v4 for a random station identifier, read out
/// as its 128-bit value; nothing is assumed of the value.
#[verifier::external_body]
fn new_station_id() -> (r: u128) {
    uuid::Uuid::new_v4().as_u128()
}

/// Whole seconds elapsed between two instants; partial seconds are not
/// billed.
pub open spec fn spec_elapsed_secs(start_ms: int, now_ms: int) -> int {
    if now_ms >= start_ms {
        (now_ms - start_ms) / 1000
    } else {
        0
    }
}

/// Energy delivered between two instants at the given power: whole elapsed
/// seconds times watts, scaled to thousandths of a kWh.
pub open spec fn spec_charged(power: int, start_ms: int, now_ms: int) -> int {
    (spec_elapsed_secs(start_ms, now_ms) * power) / 3600
}

/// Energy cost accrued between two instants, in cents: the tariff integral
/// over the whole seconds elapsed, anchored at the start's second of day.
pub open spec fn spec_energy_cents(pr: Prices, start_ms: int, now_ms: int, power: int) -> int {
    let s: int = start_ms / 1000;
    let elapsed: int = spec_elapsed_secs(start_ms, now_ms);
    if elapsed > 0 {
        cents_of(spec_span_energy(pr.periods@, s, s + elapsed, power))
    } else {
        0
    }
}

/// Service-fee cost accrued between two instants, in cents, over the same
/// whole seconds elapsed.
pub open spec fn spec_fee_cents(pr: Prices, start_ms: int, now_ms: int, power: int) -> int {
    let s: int = start_ms / 1000;
    let elapsed: int = spec_elapsed_secs(start_ms, now_ms);
    if elapsed > 0 {
        cents_of(spec_span_fee(s, s + elapsed, pr.service_fee as int, power))
    } else {
        0
    }
}

/// The head session of `c` billed to `now_ms` against `pr`: delivered
/// energy and both cost parts set, the total their sum, the last-update
/// time stamped, and the lifecycle stage as given (the end time is stamped
/// exactly when the stage is terminal Completed).
pub open spec fn spec_billed_head(
    c: Charge,
    pr: Prices,
    now_ms: int,
    status: ChargeStatus,
) -> ChargingDetail {
    let h = c.queue@[0];
    let start: int = h.start_time->0 as int;
    let e = spec_energy_cents(pr, start, now_ms, c.power as int);
    let f = spec_fee_cents(pr, start, now_ms, c.power as int);
    ChargingDetail {
        already_charged: spec_charged(c.power as int, start, now_ms) as u64,
        charge_cost: e as u128,
        service_fee: f as u128,
        total_cost: (e + f) as u128,
        last_update_time: Some(now_ms as u64),
        end_time: if status == ChargeStatus::Completed {
            Some(now_ms as u64)
        } else {
            h.end_time
        },
        status,
        ..h
    }
}

/// Milliseconds until the working head of `c` reaches its requested
/// energy, padded and scaled as the completion timer wants; zero when idle.
pub open spec fn spec_complete_interval(c: Charge, now_ms: int, speed: int) -> int {
    if !c.working {
        0
    } else {
        let est = c.queue@[0].spec_estimated_end_ms(c.power as int);
        let raw: int = if est >= now_ms {
            est - now_ms
        } else {
            0
        };
        let scaled: int = (raw + 100) / speed;
        if scaled > 0 {
            scaled
        } else {
            1
        }
    }
}

/// A session interrupted at `now_ms` with zero delivery and zero cost, as a
/// session that never started is billed.
pub open spec fn spec_zero_interrupted(d: ChargingDetail, now_ms: int) -> ChargingDetail {
    ChargingDetail {
        already_charged: 0u64,
        charge_cost: 0u128,
        service_fee: 0u128,
        total_cost: 0u128,
        last_update_time: Some(now_ms as u64),
        status: ChargeStatus::Interrupted,
        ..d
    }
}

/// Delivered energy and the two cost parts accrued since `start_ms`.
fn accrued(prices: &Prices, power: u64, start_ms: u64, now_ms: u64) -> (r: (u64, u128, u128))
    requires
        prices.inv(),
        prices.is_optimized,
        1 <= power <= MAX_POWER_MILLI,
        start_ms <= MAX_TS_MS,
        now_ms <= MAX_TS_MS,
    ensures
        r.0 == spec_charged(power as int, start_ms as int, now_ms as int),
        r.1 == spec_energy_cents(*prices, start_ms as int, now_ms as int, power as int),
        r.2 == spec_fee_cents(*prices, start_ms as int, now_ms as int, power as int),
        r.0 <= MAX_DELIVERED_MILLI,
        r.1 <= MAX_COST_CENTS,
        r.2 <= MAX_COST_CENTS,
{
    if now_ms < start_ms {
        return (0, 0, 0);
    }
    let elapsed: u64 = (now_ms - start_ms) / 1000;
    if elapsed == 0 {
        proof {
            assert(0 * (power as int) == 0) by (nonlinear_arith);
        }
        return (0, 0, 0);
    }
    let s: u64 = start_ms / 1000;
    let e: u64 = s + elapsed;
    proof {
        assert(elapsed * power <= 8_640_000_000i128 * 10_000_000i128) by (nonlinear_arith)
            requires
                0 <= elapsed <= 8_640_000_000i128,
                0 <= power <= MAX_POWER_MILLI,
        ;
        assert((elapsed * power) / 3600 <= MAX_DELIVERED_MILLI);
        // the end second never passes the current second of the timeline
        vstd::arithmetic::div_mod::lemma_fundamental_div_mod(start_ms as int, 1000);
        vstd::arithmetic::div_mod::lemma_fundamental_div_mod((now_ms - start_ms) as int, 1000);
        vstd::arithmetic::div_mod::lemma_fundamental_div_mod(now_ms as int, 1000);
        assert(e <= now_ms / 1000);
        assert(e <= MAX_TS_SEC);
        lemma_price_cents_bounds(
            prices.periods@,
            prices.service_fee as int,
            s as int,
            e as int,
            power as int,
        );
    }
    let charged: u64 = (elapsed * power) / 3600;
    match prices.calc_price_parts(s, e, power) {
        Ok(parts) => (charged, parts.0, parts.1),
        Err(_) => {
            proof {
                assert(false);
            }
            (0, 0, 0)
        },
    }
}

/// The charging station: identity, connector family, power in watts, a
/// bounded session queue, and whether its head is being served.
#[derive(Clone, Debug)]
pub struct Charge {
    pub charge_id: u128,
    pub type_: ChargeType,
    /// Charging power, in watts.
    pub power: u64,
    /// Bound on the queue length.
    pub size: u32,
    /// Waiting sessions, the served one (if any) at the front.
    pub queue: Vec<ChargingDetail>,
    /// True exactly while the head session is Charging.
    pub working: bool,
}

impl Charge {
    /// Station invariant: bounded power, bounded queue, every queued session
    /// well-formed and of the station's connector family, every non-head
    /// session still untouched, and the head Charging exactly while the
    /// station works.
    pub open spec fn inv(&self) -> bool {
        &&& 1 <= self.power <= MAX_POWER_MILLI
        &&& self.queue@.len() <= self.size
        &&& forall|i: int|
            0 <= i < self.queue@.len() ==> (#[trigger] self.queue@[i]).wf() && self.queue@[i].type_
                == self.type_
        &&& forall|i: int|
            1 <= i < self.queue@.len() ==> (#[trigger] self.queue@[i]).spec_is_ready()
        &&& self.working ==> self.queue@.len() > 0 && self.queue@[0].status
            == ChargeStatus::Charging
        &&& !self.working && self.queue@.len() > 0 ==> self.queue@[0].spec_is_ready()
    }

    /// A fresh idle station with an empty queue and a random identity.
    pub fn new(type_: ChargeType, power: u64, size: u32) -> (r: Self)
        requires
            1 <= power <= MAX_POWER_MILLI,
        ensures
            r.inv(),
            r.type_ == type_,
            r.power == power,
            r.size == size,
            r.queue@.len() == 0,
            !r.working,
    {
        Charge { charge_id: new_station_id(), type_, power, size, queue: Vec::new(), working: false }
    }

    /// Appends a fresh session: rejected with `TypeMismatch` when its
    /// connector family differs, else with `CapacityExceeded` when the queue
    /// is full; otherwise appended, and nothing else changes.
    pub fn add_detail(&mut self, detail: ChargingDetail) -> (r: Result<(), ErrorKind>)
        requires
            old(self).inv(),
            detail.wf(),
            detail.spec_is_ready(),
        ensures
            final(self).inv(),
            detail.type_ != old(self).type_ ==> r == Err::<(), ErrorKind>(ErrorKind::TypeMismatch)
                && *final(self) == *old(self),
            detail.type_ == old(self).type_ && old(self).queue@.len() >= old(self).size ==> r
                == Err::<(), ErrorKind>(ErrorKind::CapacityExceeded) && *final(self) == *old(self),
            detail.type_ == old(self).type_ && old(self).queue@.len() < old(self).size ==> r
                == Ok::<(), ErrorKind>(()) && final(self).queue@ == old(self).queue@.push(detail)
                && final(self).working == old(self).working && final(self).charge_id == old(self).charge_id && final(self).type_ == old(self).type_ && final(self).power == old(self).power && final(self).size == old(self).size,
    {
        if !charge_type_eq(detail.get_type(), self.type_) {
            return Err(ErrorKind::TypeMismatch);
        }
        if self.queue.len() >= self.size as usize {
            return Err(ErrorKind::CapacityExceeded);
        }
        self.queue.push(detail);
        Ok(())
    }

    /// Starts the head session when the station is idle and the queue is
    /// nonempty; reports whether a transition happened.
    pub fn start_charging(&mut self, now_ms: u64) -> (r: bool)
        requires
            old(self).inv(),
            now_ms <= MAX_TS_MS,
        ensures
            final(self).inv(),
            old(self).working || old(self).queue@.len() == 0 ==> r == false && *final(self)
                == *old(self),
            !old(self).working && old(self).queue@.len() > 0 ==> r == true && final(self).working
                && final(self).queue@ == old(self).queue@.update(
                0,
                ChargingDetail {
                    start_time: Some(now_ms),
                    last_update_time: Some(now_ms),
                    status: ChargeStatus::Charging,
                    ..old(self).queue@[0]
                },
            ) && final(self).charge_id == old(self).charge_id && final(self).type_ == old(self).type_ && final(self).power == old(self).power && final(self).size == old(self).size,
    {
        if self.queue.len() == 0 {
            return false;
        }
        if self.working {
            return false;
        }
        self.working = true;
        let ghost pre = self.queue@;
        let mut head = self.queue.remove(0);
        let res = head.start(now_ms);
        proof {
            assert(res is Ok);
        }
        self.queue.insert(0, head);
        proof {
            assert(self.queue@ =~= pre.update(
                0,
                ChargingDetail {
                    start_time: Some(now_ms),
                    last_update_time: Some(now_ms),
                    status: ChargeStatus::Charging,
                    ..pre[0]
                },
            ));
        }
        true
    }

    /// Whether the head session is being served.
    pub fn is_working(&self) -> (r: bool)
        ensures
            r == self.working,
    {
        self.working
    }

    /// How many sessions are queued.
    pub fn get_queue_size(&self) -> (r: usize)
        ensures
            r == self.queue@.len(),
    {
        self.queue.len()
    }

    /// The head session, if any.
    pub fn get_charging_detail_ref(&self) -> (r: Option<&ChargingDetail>)
        ensures
            self.queue@.len() == 0 ==> r is None,
            self.queue@.len() > 0 ==> (r matches Some(d) && *d == self.queue@[0]),
    {
        if self.queue.len() > 0 {
            Some(&self.queue[0])
        } else {
            None
        }
    }
}

impl Charge {
    /// Progress-bills the working head over [start, now): delivered energy
    /// from elapsed whole seconds, costs from the tariff table. An idle
    /// station is rejected without mutation.
    pub fn update_charging(&mut self, prices: &Prices, now_ms: u64) -> (r: Result<(), ErrorKind>)
        requires
            old(self).inv(),
            prices.inv(),
            prices.is_optimized,
            now_ms <= MAX_TS_MS,
        ensures
            final(self).inv(),
            !old(self).working ==> r == Err::<(), ErrorKind>(ErrorKind::InvalidState)
                && *final(self) == *old(self),
            old(self).working ==> r == Ok::<(), ErrorKind>(()) && final(self).queue@ == old(self).queue@.update(
                0,
                (ChargingDetail {
                    already_charged: spec_charged(
                        old(self).power as int,
                        old(self).queue@[0].start_time->0 as int,
                        now_ms as int,
                    ) as u64,
                    charge_cost: spec_energy_cents(
                        *prices,
                        old(self).queue@[0].start_time->0 as int,
                        now_ms as int,
                        old(self).power as int,
                    ) as u128,
                    service_fee: spec_fee_cents(
                        *prices,
                        old(self).queue@[0].start_time->0 as int,
                        now_ms as int,
                        old(self).power as int,
                    ) as u128,
                    total_cost: (spec_energy_cents(
                        *prices,
                        old(self).queue@[0].start_time->0 as int,
                        now_ms as int,
                        old(self).power as int,
                    ) + spec_fee_cents(
                        *prices,
                        old(self).queue@[0].start_time->0 as int,
                        now_ms as int,
                        old(self).power as int,
                    )) as u128,
                    last_update_time: Some(now_ms),
                    ..old(self).queue@[0]
                }),
            ) && final(self).working && final(self).charge_id == old(self).charge_id && final(self).type_ == old(self).type_ && final(self).power == old(self).power && final(self).size
                == old(self).size,
    {
        if !self.working {
            return Err(ErrorKind::InvalidState);
        }
        let ghost pre = self.queue@;
        let mut head = self.queue.remove(0);
        let start_ms = head.clone_start_time();
        let (charged, e_cents, f_cents) = accrued(prices, self.power, start_ms, now_ms);
        let res = head.update_state(charged, e_cents, f_cents, now_ms);
        proof {
            assert(res is Ok);
        }
        self.queue.insert(0, head);
        proof {
            assert(self.queue@ =~= pre.update(0, self.queue@[0]));
        }
        Ok(())
    }

    /// Final-bills the working head the same way, completes it, removes it
    /// from the queue and idles the station; None when the station is idle.
    pub fn complete_charging(&mut self, prices: &Prices, now_ms: u64) -> (r: Option<
        ChargingDetail,
    >)
        requires
            old(self).inv(),
            prices.inv(),
            prices.is_optimized,
            now_ms <= MAX_TS_MS,
        ensures
            final(self).inv(),
            !old(self).working ==> r is None && *final(self) == *old(self),
            old(self).working ==> (r matches Some(d) && d == (ChargingDetail {
                already_charged: spec_charged(
                    old(self).power as int,
                    old(self).queue@[0].start_time->0 as int,
                    now_ms as int,
                ) as u64,
                charge_cost: spec_energy_cents(
                    *prices,
                    old(self).queue@[0].start_time->0 as int,
                    now_ms as int,
                    old(self).power as int,
                ) as u128,
                service_fee: spec_fee_cents(
                    *prices,
                    old(self).queue@[0].start_time->0 as int,
                    now_ms as int,
                    old(self).power as int,
                ) as u128,
                total_cost: (spec_energy_cents(
                    *prices,
                    old(self).queue@[0].start_time->0 as int,
                    now_ms as int,
                    old(self).power as int,
                ) + spec_fee_cents(
                    *prices,
                    old(self).queue@[0].start_time->0 as int,
                    now_ms as int,
                    old(self).power as int,
                )) as u128,
                last_update_time: Some(now_ms),
                end_time: Some(now_ms),
                status: ChargeStatus::Completed,
                ..old(self).queue@[0]
            }) && final(self).queue@ == old(self).queue@.subrange(
                1,
                old(self).queue@.len() as int,
            ) && !final(self).working && final(self).charge_id == old(self).charge_id && final(self).type_ == old(self).type_ && final(self).power == old(self).power && final(self).size
                == old(self).size),
    {
        if !self.working {
            return None;
        }
        let ghost pre = self.queue@;
        let mut head = self.queue.remove(0);
        self.working = false;
        let start_ms = head.clone_start_time();
        let (charged, e_cents, f_cents) = accrued(prices, self.power, start_ms, now_ms);
        let res = head.complete(charged, e_cents, f_cents, now_ms);
        proof {
            assert(res is Ok);
            assert(self.queue@ =~= pre.subrange(1, pre.len() as int));
        }
        Some(head)
    }

    /// Removes the session with the given id. Cancelling the working head
    /// bills it to date and idles the station; cancelling a session waiting
    /// further back interrupts it at zero cost. `NotFound` when no session
    /// carries the id.
    pub fn cancel_charging(&mut self, detail_id: u32, prices: &Prices, now_ms: u64) -> (r: Result<
        ChargingDetail,
        ErrorKind,
    >)
        requires
            old(self).inv(),
            prices.inv(),
            prices.is_optimized,
            now_ms <= MAX_TS_MS,
        ensures
            final(self).inv(),
            final(self).charge_id == old(self).charge_id,
            final(self).type_ == old(self).type_,
            final(self).power == old(self).power,
            final(self).size == old(self).size,
            (forall|i: int|
                0 <= i < old(self).queue@.len() ==> (#[trigger] old(self).queue@[i]).id
                    != detail_id) ==> r == Err::<ChargingDetail, ErrorKind>(ErrorKind::NotFound)
                && *final(self) == *old(self),
            forall|pos: int|
                (0 <= pos < old(self).queue@.len() && (#[trigger] old(self).queue@[pos]).id
                    == detail_id && (forall|i: int|
                    0 <= i < pos ==> (#[trigger] old(self).queue@[i]).id != detail_id)) ==> ((
                r matches Ok(d) && d == (ChargingDetail {
                    already_charged: (if pos == 0 && old(self).working {
                        spec_charged(
                            old(self).power as int,
                            old(self).queue@[0].start_time->0 as int,
                            now_ms as int,
                        ) as u64
                    } else {
                        0u64
                    }),
                    charge_cost: (if pos == 0 && old(self).working {
                        spec_energy_cents(
                            *prices,
                            old(self).queue@[0].start_time->0 as int,
                            now_ms as int,
                            old(self).power as int,
                        ) as u128
                    } else {
                        0u128
                    }),
                    service_fee: (if pos == 0 && old(self).working {
                        spec_fee_cents(
                            *prices,
                            old(self).queue@[0].start_time->0 as int,
                            now_ms as int,
                            old(self).power as int,
                        ) as u128
                    } else {
                        0u128
                    }),
                    total_cost: (if pos == 0 && old(self).working {
                        (spec_energy_cents(
                            *prices,
                            old(self).queue@[0].start_time->0 as int,
                            now_ms as int,
                            old(self).power as int,
                        ) + spec_fee_cents(
                            *prices,
                            old(self).queue@[0].start_time->0 as int,
                            now_ms as int,
                            old(self).power as int,
                        )) as u128
                    } else {
                        0u128
                    }),
                    last_update_time: Some(now_ms),
                    status: ChargeStatus::Interrupted,
                    ..old(self).queue@[pos]
                }) && final(self).queue@ == old(self).queue@.remove(pos) && final(self).working
                    == (if pos == 0 {
                    false
                } else {
                    old(self).working
                }) && final(self).charge_id == old(self).charge_id && final(self).type_ == old(self).type_ && final(self).power == old(self).power && final(self).size == old(self).size)),
    {
        let n: usize = self.queue.len();
        let mut pos: usize = n;
        let mut i: usize = 0;
        while i < n
            invariant
                *self == *old(self),
                n == self.queue@.len(),
                0 <= i <= n,
                pos == n || (pos < i && self.queue@[pos as int].id == detail_id),
                pos == n ==> forall|k: int|
                    0 <= k < i ==> (#[trigger] self.queue@[k]).id != detail_id,
                pos < n ==> forall|k: int|
                    0 <= k < pos ==> (#[trigger] self.queue@[k]).id != detail_id,
            decreases n - i,
        {
            if pos == n && self.queue[i].get_id() == detail_id {
                pos = i;
            }
            i = i + 1;
        }
        if pos == n {
            return Err(ErrorKind::NotFound);
        }
        let ghost pre = self.queue@;
        let mut d = self.queue.remove(pos);
        if pos == 0 {
            if self.working {
                let start_ms = d.clone_start_time();
                let (charged, e_cents, f_cents) = accrued(prices, self.power, start_ms, now_ms);
                let res = d.interrupt(charged, e_cents, f_cents, now_ms);
                proof {
                    assert(res is Ok);
                }
            } else {
                let res = d.interrupt(0, 0, 0, now_ms);
                proof {
                    assert(res is Ok);
                }
            }
            self.working = false;
        } else {
            let res = d.interrupt(0, 0, 0, now_ms);
            proof {
                assert(res is Ok);
            }
        }
        Ok(d)
    }

    /// Closes the station: idles it, interrupts and returns the head billed
    /// to date (zero when it never started), and discards the rest of the
    /// queue wholesale.
    pub fn close(&mut self, prices: &Prices, now_ms: u64) -> (r: Option<ChargingDetail>)
        requires
            old(self).inv(),
            prices.inv(),
            prices.is_optimized,
            now_ms <= MAX_TS_MS,
        ensures
            final(self).inv(),
            !final(self).working,
            final(self).queue@.len() == 0,
            final(self).charge_id == old(self).charge_id,
            final(self).type_ == old(self).type_,
            final(self).power == old(self).power,
            final(self).size == old(self).size,
            old(self).queue@.len() == 0 ==> r is None,
            old(self).queue@.len() > 0 ==> (r matches Some(d) && d == (ChargingDetail {
                already_charged: (if old(self).working {
                    spec_charged(
                        old(self).power as int,
                        old(self).queue@[0].start_time->0 as int,
                        now_ms as int,
                    ) as u64
                } else {
                    0u64
                }),
                charge_cost: (if old(self).working {
                    spec_energy_cents(
                        *prices,
                        old(self).queue@[0].start_time->0 as int,
                        now_ms as int,
                        old(self).power as int,
                    ) as u128
                } else {
                    0u128
                }),
                service_fee: (if old(self).working {
                    spec_fee_cents(
                        *prices,
                        old(self).queue@[0].start_time->0 as int,
                        now_ms as int,
                        old(self).power as int,
                    ) as u128
                } else {
                    0u128
                }),
                total_cost: (if old(self).working {
                    (spec_energy_cents(
                        *prices,
                        old(self).queue@[0].start_time->0 as int,
                        now_ms as int,
                        old(self).power as int,
                    ) + spec_fee_cents(
                        *prices,
                        old(self).queue@[0].start_time->0 as int,
                        now_ms as int,
                        old(self).power as int,
                    )) as u128
                } else {
                    0u128
                }),
                last_update_time: Some(now_ms),
                status: ChargeStatus::Interrupted,
                ..old(self).queue@[0]
            })),
    {
        if self.queue.len() == 0 {
            self.working = false;
            return None;
        }
        let mut d = self.queue.remove(0);
        self.queue.clear();
        if self.working {
            let start_ms = d.clone_start_time();
            let (charged, e_cents, f_cents) = accrued(prices, self.power, start_ms, now_ms);
            let res = d.interrupt(charged, e_cents, f_cents, now_ms);
            proof {
                assert(res is Ok);
            }
        } else {
            let res = d.interrupt(0, 0, 0, now_ms);
            proof {
                assert(res is Ok);
            }
        }
        self.working = false;
        Some(d)
    }

    /// A breakdown has exactly the effect of a close; only the reported
    /// message kind differs.
    pub fn breakdown(&mut self, prices: &Prices, now_ms: u64) -> (r: Option<ChargingDetail>)
        requires
            old(self).inv(),
            prices.inv(),
            prices.is_optimized,
            now_ms <= MAX_TS_MS,
        ensures
            final(self).inv(),
            !final(self).working,
            final(self).queue@.len() == 0,
            final(self).charge_id == old(self).charge_id,
            final(self).type_ == old(self).type_,
            final(self).power == old(self).power,
            final(self).size == old(self).size,
            old(self).queue@.len() == 0 ==> r is None,
            old(self).queue@.len() > 0 ==> (r matches Some(d) && d == (if old(self).working {
                spec_billed_head(*old(self), *prices, now_ms as int, ChargeStatus::Interrupted)
            } else {
                spec_zero_interrupted(old(self).queue@[0], now_ms as int)
            })),
    {
        self.close(prices, now_ms)
    }

    /// Milliseconds until the working head reaches its requested energy:
    /// the estimate less now, floored at zero, padded by a small margin,
    /// scaled down by the clock acceleration, and kept positive so the
    /// completion timer is never armed for a zero duration; zero when idle.
    pub fn complete_interval(&self, now_ms: u64, speed: u64) -> (r: u64)
        requires
            self.inv(),
            now_ms <= MAX_TS_MS,
            1 <= speed <= MAX_SPEED,
        ensures
            r == spec_complete_interval(*self, now_ms as int, speed as int),
            self.working ==> r >= 1,
    {
        if !self.working {
            return 0;
        }
        let head = &self.queue[0];
        match head.get_estimated_end_time(self.power) {
            Some(est) => {
                let raw: u64 = if est >= now_ms {
                    est - now_ms
                } else {
                    0
                };
                let scaled: u64 = (raw + 100) / speed;
                if scaled > 0 {
                    scaled
                } else {
                    1
                }
            },
            None => {
                proof {
                    assert(false);
                }
                0
            },
        }
    }
}

/// Whether two connector families are the same.
fn charge_type_eq(a: ChargeType, b: ChargeType) -> (r: bool)
    ensures
        r == (a == b),
{
    a == b
}

/// At most one queued session is Charging, and only as the head of a
/// working station.
pub proof fn lemma_station_single_activity(c: Charge)
    requires
        c.inv(),
    ensures
        forall|i: int|
            0 <= i < c.queue@.len() && (#[trigger] c.queue@[i]).status == ChargeStatus::Charging
                ==> i == 0 && c.working,
{
    assert forall|i: int|
        0 <= i < c.queue@.len() && (#[trigger] c.queue@[i]).status
            == ChargeStatus::Charging implies i == 0 && c.working by {
        if i >= 1 {
            assert(c.queue@[i].spec_is_ready());
        }
        if i == 0 && !c.working {
            assert(c.queue@[0].spec_is_ready());
        }
    }
}

} // verus!
