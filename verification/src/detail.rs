//! One charging request's record: a small state machine from Waiting
//! through Charging to a terminal Completed or Interrupted.

use vstd::prelude::*;

use crate::ErrorKind;
use crate::conf::ChargeType;
use crate::conf::default_charge_type;
use crate::price::MAX_POWER_MILLI;
use crate::time::MAX_TS_MS;

verus! {

/// Upper bound on an energy amount, in thousandths of a kWh.
pub const MAX_ENERGY_MILLI: u64 = 1_000_000_000;

/// Upper bound on the energy a station can have delivered, in thousandths
/// of a kWh; billing at the largest power over the whole timestamp range
/// stays below it.
pub const MAX_DELIVERED_MILLI: u64 = 100_000_000_000_000;

/// Upper bound on a cost, in cents; pricing results stay well below it.
pub const MAX_COST_CENTS: u128 = 10_000_000_000_000_000_000_000;

/// Where a session stands in its lifecycle.
#[derive(Clone, Copy, Debug, PartialEq, Eq, Structural)]
pub enum ChargeStatus {
    /// Queued, not yet started.
    Waiting,
    /// Being served as the station's head session.
    Charging,
    /// Finished normally; terminal.
    Completed,
    /// Cut short by a cancel, close or breakdown; terminal.
    Interrupted,
}

/// One charging request's record. Energy amounts are in thousandths of a
/// kWh, costs in cents, timestamps in milliseconds since the epoch.
#[derive(Clone, Copy, Debug, PartialEq, Eq)]
pub struct ChargingDetail {
    pub id: u32,
    /// Energy asked for.
    pub request_amount: u64,
    /// Connector family the request needs.
    pub type_: ChargeType,
    /// Energy delivered so far.
    pub already_charged: u64,
    /// When charging started, if it did.
    pub start_time: Option<u64>,
    /// When the record last changed after starting.
    pub last_update_time: Option<u64>,
    /// When charging completed, if it did.
    pub end_time: Option<u64>,
    /// Energy cost so far.
    pub charge_cost: u128,
    /// Service-fee cost so far.
    pub service_fee: u128,
    /// The two costs summed.
    pub total_cost: u128,
    pub status: ChargeStatus,
}

impl ChargingDetail {
    /// A fresh record: Waiting, with every amount, cost and timestamp zero
    /// or absent.
    pub open spec fn spec_is_ready(&self) -> bool {
        &&& self.already_charged == 0
        &&& self.start_time is None
        &&& self.last_update_time is None
        &&& self.end_time is None
        &&& self.charge_cost == 0
        &&& self.service_fee == 0
        &&& self.total_cost == 0
        &&& self.status == ChargeStatus::Waiting
    }

    /// Field bounds and the timestamps each lifecycle stage guarantees.
    pub open spec fn wf(&self) -> bool {
        &&& self.request_amount <= MAX_ENERGY_MILLI
        &&& self.already_charged <= MAX_DELIVERED_MILLI
        &&& self.charge_cost <= MAX_COST_CENTS
        &&& self.service_fee <= MAX_COST_CENTS
        &&& self.start_time matches Some(t) ==> t <= MAX_TS_MS
        &&& self.status == ChargeStatus::Charging ==> self.start_time is Some
            && self.last_update_time is Some
        &&& self.status == ChargeStatus::Completed ==> self.start_time is Some
            && self.end_time is Some
    }

    /// A fresh Waiting record for `request_amount` energy.
    pub fn new(id: u32, request_amount: u64, type_: ChargeType) -> (r: Self)
        requires
            request_amount <= MAX_ENERGY_MILLI,
        ensures
            r.wf(),
            r.spec_is_ready(),
            r.id == id,
            r.request_amount == request_amount,
            r.type_ == type_,
    {
        ChargingDetail {
            id,
            request_amount,
            type_,
            already_charged: 0,
            start_time: None,
            last_update_time: None,
            end_time: None,
            charge_cost: 0,
            service_fee: 0,
            total_cost: 0,
            status: ChargeStatus::Waiting,
        }
    }

    /// A canned fresh record asking for 30 kWh on the default connector
    /// family.
    pub fn test_new(id: u32) -> (r: Self)
        ensures
            r.wf(),
            r.spec_is_ready(),
            r.id == id,
            r.request_amount == 30_000u64,
            r.type_ == ChargeType::Fast,
    {
        Self::new(id, 30_000, default_charge_type())
    }

    /// Only a Waiting record with all-zero amounts, costs and timestamps is
    /// ready to enter a queue.
    pub fn is_ready(&self) -> (r: bool)
        ensures
            r == self.spec_is_ready(),
    {
        self.already_charged == 0 && self.start_time.is_none() && self.last_update_time.is_none()
            && self.end_time.is_none() && self.charge_cost == 0 && self.service_fee == 0
            && self.total_cost == 0 && matches!(self.status, ChargeStatus::Waiting)
    }

    /// Waiting -> Charging; stamps the start and last-update times. Any
    /// other state is rejected without mutation.
    pub fn start(&mut self, time: u64) -> (r: Result<(), ErrorKind>)
        requires
            old(self).wf(),
            time <= MAX_TS_MS,
        ensures
            final(self).wf(),
            old(self).status == ChargeStatus::Waiting ==> r == Ok::<(), ErrorKind>(())
                && *final(self) == (ChargingDetail {
                start_time: Some(time),
                last_update_time: Some(time),
                status: ChargeStatus::Charging,
                ..*old(self)
            }),
            old(self).status != ChargeStatus::Waiting ==> r == Err::<(), ErrorKind>(
                ErrorKind::InvalidState,
            ) && *final(self) == *old(self),
    {
        if !matches!(self.status, ChargeStatus::Waiting) {
            return Err(ErrorKind::InvalidState);
        }
        self.start_time = Some(time);
        self.last_update_time = Some(time);
        self.status = ChargeStatus::Charging;
        Ok(())
    }

    /// Progress report while Charging: new delivered amount and costs, with
    /// the total the exact sum of the two costs. Any other state is
    /// rejected without mutation.
    pub fn update_state(
        &mut self,
        already_charged: u64,
        charge_cost: u128,
        service_fee: u128,
        time: u64,
    ) -> (r: Result<(), ErrorKind>)
        requires
            old(self).wf(),
            time <= MAX_TS_MS,
            already_charged <= MAX_DELIVERED_MILLI,
            charge_cost <= MAX_COST_CENTS,
            service_fee <= MAX_COST_CENTS,
        ensures
            final(self).wf(),
            old(self).status == ChargeStatus::Charging ==> r == Ok::<(), ErrorKind>(())
                && *final(self) == (ChargingDetail {
                already_charged,
                charge_cost,
                service_fee,
                total_cost: (charge_cost + service_fee) as u128,
                last_update_time: Some(time),
                ..*old(self)
            }),
            old(self).status != ChargeStatus::Charging ==> r == Err::<(), ErrorKind>(
                ErrorKind::InvalidState,
            ) && *final(self) == *old(self),
    {
        if !matches!(self.status, ChargeStatus::Charging) {
            return Err(ErrorKind::InvalidState);
        }
        self.last_update_time = Some(time);
        self.already_charged = already_charged;
        self.charge_cost = charge_cost;
        self.service_fee = service_fee;
        self.total_cost = charge_cost + service_fee;
        Ok(())
    }

    /// Charging -> Completed: final amounts and costs, end time stamped.
    /// Any other state is rejected without mutation.
    pub fn complete(
        &mut self,
        already_charged: u64,
        charge_cost: u128,
        service_fee: u128,
        time: u64,
    ) -> (r: Result<(), ErrorKind>)
        requires
            old(self).wf(),
            time <= MAX_TS_MS,
            already_charged <= MAX_DELIVERED_MILLI,
            charge_cost <= MAX_COST_CENTS,
            service_fee <= MAX_COST_CENTS,
        ensures
            final(self).wf(),
            old(self).status == ChargeStatus::Charging ==> r == Ok::<(), ErrorKind>(())
                && *final(self) == (ChargingDetail {
                already_charged,
                charge_cost,
                service_fee,
                total_cost: (charge_cost + service_fee) as u128,
                last_update_time: Some(time),
                end_time: Some(time),
                status: ChargeStatus::Completed,
                ..*old(self)
            }),
            old(self).status != ChargeStatus::Charging ==> r == Err::<(), ErrorKind>(
                ErrorKind::InvalidState,
            ) && *final(self) == *old(self),
    {
        if !matches!(self.status, ChargeStatus::Charging) {
            return Err(ErrorKind::InvalidState);
        }
        self.last_update_time = Some(time);
        self.already_charged = already_charged;
        self.charge_cost = charge_cost;
        self.service_fee = service_fee;
        self.total_cost = charge_cost + service_fee;
        self.end_time = Some(time);
        self.status = ChargeStatus::Completed;
        Ok(())
    }

    /// Waiting or Charging -> Interrupted: the costs may be zero when the
    /// session never started. Terminal states are rejected without
    /// mutation.
    pub fn interrupt(
        &mut self,
        already_charged: u64,
        charge_cost: u128,
        service_fee: u128,
        time: u64,
    ) -> (r: Result<(), ErrorKind>)
        requires
            old(self).wf(),
            time <= MAX_TS_MS,
            already_charged <= MAX_DELIVERED_MILLI,
            charge_cost <= MAX_COST_CENTS,
            service_fee <= MAX_COST_CENTS,
        ensures
            final(self).wf(),
            old(self).status == ChargeStatus::Waiting || old(self).status == ChargeStatus::Charging
                ==> r == Ok::<(), ErrorKind>(()) && *final(self) == (ChargingDetail {
                already_charged,
                charge_cost,
                service_fee,
                total_cost: (charge_cost + service_fee) as u128,
                last_update_time: Some(time),
                status: ChargeStatus::Interrupted,
                ..*old(self)
            }),
            old(self).status == ChargeStatus::Completed || old(self).status
                == ChargeStatus::Interrupted ==> r == Err::<(), ErrorKind>(ErrorKind::InvalidState)
                && *final(self) == *old(self),
    {
        if !matches!(self.status, ChargeStatus::Waiting | ChargeStatus::Charging) {
            return Err(ErrorKind::InvalidState);
        }
        self.last_update_time = Some(time);
        self.already_charged = already_charged;
        self.charge_cost = charge_cost;
        self.service_fee = service_fee;
        self.total_cost = charge_cost + service_fee;
        self.status = ChargeStatus::Interrupted;
        Ok(())
    }

    /// The start timestamp of a session that has one.
    pub fn clone_start_time(&self) -> (r: u64)
        requires
            self.status != ChargeStatus::Waiting,
            self.start_time is Some,
        ensures
            r == self.start_time->0,
    {
        match self.start_time {
            Some(t) => t,
            None => 0,  // excluded by the precondition
        }
    }

    pub fn get_id(&self) -> (r: u32)
        ensures
            r == self.id,
    {
        self.id
    }

    /// When a Charging session will reach its requested energy at the given
    /// power: the start time plus the signed remaining duration in whole
    /// seconds, so a session whose delivery overshot its request estimates
    /// an instant before its start, never before the epoch.
    pub open spec fn spec_estimated_end_ms(&self, power: int) -> int {
        let start: int = self.start_time->0 as int;
        if self.request_amount >= self.already_charged {
            let rem: int = self.request_amount - self.already_charged;
            start + ((rem * 3600) / power) * 1000
        } else {
            let deficit: int = self.already_charged - self.request_amount;
            let back: int = ((deficit * 3600) / power) * 1000;
            if start >= back {
                start - back
            } else {
                0
            }
        }
    }

    /// Estimated completion time of a Charging session; None in any other
    /// state.
    pub fn get_estimated_end_time(&self, power: u64) -> (r: Option<u64>)
        requires
            self.wf(),
            1 <= power <= MAX_POWER_MILLI,
        ensures
            self.status != ChargeStatus::Charging <==> r is None,
            self.status == ChargeStatus::Charging ==> r == Some(
                self.spec_estimated_end_ms(power as int) as u64,
            ) && r->0 <= MAX_TS_MS + 3_600_000_000_000_000u64,
    {
        if !matches!(self.status, ChargeStatus::Charging) {
            return None;
        }
        let start: u64 = match self.start_time {
            Some(t) => t,
            None => 0,  // unreachable: Charging implies a start time
        };
        if self.request_amount >= self.already_charged {
            let rem: u64 = self.request_amount - self.already_charged;
            let est_secs: u64 = (rem * 3600) / power;
            proof {
                assert(rem * 3600 <= 3_600_000_000_000i64) by (nonlinear_arith)
                    requires
                        0 <= rem <= MAX_ENERGY_MILLI,
                ;
                assert(est_secs * 1000 <= 3_600_000_000_000_000i64) by (nonlinear_arith)
                    requires
                        0 <= est_secs <= 3_600_000_000_000i64,
                ;
            }
            Some(start + est_secs * 1000)
        } else {
            let deficit: u64 = self.already_charged - self.request_amount;
            proof {
                assert(deficit * 3600 <= 360_000_000_000_000_000i128) by (nonlinear_arith)
                    requires
                        0 <= deficit <= MAX_DELIVERED_MILLI,
                ;
            }
            let back: u128 = (((deficit * 3600) / power) as u128) * 1000;
            if (start as u128) >= back {
                Some(start - back as u64)
            } else {
                Some(0)
            }
        }
    }

    pub fn get_type(&self) -> (r: ChargeType)
        ensures
            r == self.type_,
    {
        self.type_
    }
}

} // verus!
