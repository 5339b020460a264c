//! Time-of-day tariff table and pricing engine.
//!
//! All quantities are integers: times of day in seconds after midnight,
//! timestamps in seconds since the epoch, prices and fees in thousandths of a
//! currency unit per kWh, power in watts (thousandths of a kW), and computed
//! costs in hundredths of a currency unit (cents), rounded half-up.

use vstd::prelude::*;

use crate::ErrorKind;

verus! {

/// Seconds in one day; times of day run over [0, SECS_PER_DAY].
pub const SECS_PER_DAY: u32 = 86400;

/// Upper bound on a tariff price or service fee, in milli-units per kWh.
pub const MAX_RATE_MILLI: u64 = 10_000_000;

/// Upper bound on a charging power, in watts.
pub const MAX_POWER_MILLI: u64 = 10_000_000;

/// Upper bound on a timestamp, in seconds since the epoch.
pub const MAX_TS_SEC: u64 = 8_640_000_000;

/// A raw cost numerator counts seconds x watts x milli-rate; one cent is
/// this many numerator units, so cents = (num + CENT_HALF) / CENT_NUM.
pub const CENT_NUM: u128 = 36_000_000;

/// Half of `CENT_NUM`, added before dividing to round half-up.
pub const CENT_HALF: u128 = 18_000_000;

/// One contiguous time-of-day band with a single energy price.
#[derive(Clone, Copy, Debug, PartialEq, Eq, Structural)]
pub struct TimePeriod {
    /// Start of the band, seconds after midnight, in [0, SECS_PER_DAY).
    pub start: u32,
    /// End of the band, seconds after midnight, in (0, SECS_PER_DAY]; an end
    /// of SECS_PER_DAY stands for midnight closing the day. A band whose end
    /// lies at or before its start crosses midnight.
    pub end: u32,
    /// Energy price over the band, milli-units per kWh.
    pub price: u64,
}

/// Field bounds every stored period satisfies.
pub open spec fn period_bounds(p: TimePeriod) -> bool {
    p.start < SECS_PER_DAY && 0 < p.end <= SECS_PER_DAY && p.price <= MAX_RATE_MILLI
}

/// A normalized table: sorted, non-overlapping, contiguous, tiling the whole
/// day from midnight to midnight.
pub open spec fn tiles(ps: Seq<TimePeriod>) -> bool {
    &&& ps.len() > 0
    &&& ps[0].start == 0
    &&& ps[ps.len() - 1].end == SECS_PER_DAY
    &&& forall|i: int| 0 <= i < ps.len() ==> (#[trigger] ps[i]).start < ps[i].end
    &&& forall|i: int| 0 <= i < ps.len() - 1 ==> (#[trigger] ps[i]).end == ps[i + 1].start
}

/// Seconds of [s, e) that fall inside the band of `p`.
pub open spec fn overlap_secs(p: TimePeriod, s: int, e: int) -> int {
    let lo: int = if s >= p.start { s } else { p.start as int };
    let hi: int = if e <= p.end { e } else { p.end as int };
    if hi >= lo { hi - lo } else { 0 }
}

/// Energy-cost numerator of the span [s, e) of one day: for each period, its
/// overlap with [s, e) in seconds, times the power in watts, times its price.
pub open spec fn spec_day_energy(ps: Seq<TimePeriod>, s: int, e: int, power: int) -> int
    decreases ps.len(),
{
    if ps.len() == 0 {
        0
    } else {
        power * ps[0].price * overlap_secs(ps[0], s, e) + spec_day_energy(
            ps.drop_first(),
            s,
            e,
            power,
        )
    }
}

/// Energy-cost numerator of an arbitrary timestamp span [s, e), walked one
/// calendar day at a time; each day is priced by `spec_day_energy`.
pub open spec fn spec_span_energy(ps: Seq<TimePeriod>, s: int, e: int, power: int) -> int
    decreases e - s,
{
    if s < 0 || e <= s {
        0
    } else {
        let day: int = SECS_PER_DAY as int;
        let day_start: int = (s / day) * day;
        let day_end: int = day_start + day;
        if e <= day_end {
            spec_day_energy(ps, s % day, e - day_start, power)
        } else {
            spec_day_energy(ps, s % day, day, power) + spec_span_energy(ps, day_end, e, power)
        }
    }
}

/// Service-fee numerator of [s, e): the fee is a uniform per-kWh surcharge,
/// so it integrates to fee x power x elapsed seconds.
pub open spec fn spec_span_fee(s: int, e: int, fee: int, power: int) -> int {
    if e >= s {
        power * fee * (e - s)
    } else {
        0
    }
}

/// Rounds a raw cost numerator to cents, half-up.
pub open spec fn cents_of(num: int) -> int {
    (num + CENT_HALF as int) / (CENT_NUM as int)
}

/// A freshly read table is taken as unnormalized until `optimize` runs.
pub fn not_optimized() -> (r: bool)
    ensures
        r == false,
{
    false
}

/// The tariff table: an ordered sequence of periods plus a uniform service
/// fee. Pricing queries require a table that `optimize` has normalized.
#[derive(Clone, Debug)]
pub struct Prices {
    pub periods: Vec<TimePeriod>,
    /// Per-kWh surcharge in milli-units, applied uniformly over all periods.
    pub service_fee: u64,
    /// Set by `optimize`; pricing queries demand it.
    pub is_optimized: bool,
}

impl Prices {
    /// Well-formedness: bounded fields, and a tiling period sequence whenever
    /// the table claims to be normalized.
    pub open spec fn inv(&self) -> bool {
        &&& self.service_fee <= MAX_RATE_MILLI
        &&& forall|i: int|
            0 <= i < self.periods@.len() ==> period_bounds(#[trigger] self.periods@[i])
        &&& self.is_optimized ==> tiles(self.periods@)
    }

    /// An empty, unnormalized table with no service fee.
    pub fn new() -> (r: Self)
        ensures
            r.inv(),
            r.periods@ =~= Seq::<TimePeriod>::empty(),
            r.service_fee == 0,
            !r.is_optimized,
    {
        Prices { periods: Vec::new(), service_fee: 0, is_optimized: false }
    }

    /// Appends one band. An end of 0 means midnight closing the day and is
    /// stored as SECS_PER_DAY. Appending unsets the normalized mark.
    pub fn add_period(&mut self, start: u32, end: u32, price: u64)
        requires
            old(self).inv(),
            start < SECS_PER_DAY,
            end <= SECS_PER_DAY,
            price <= MAX_RATE_MILLI,
        ensures
            final(self).inv(),
            final(self).periods@ =~= old(self).periods@.push(
                TimePeriod { start, end: if end == 0 { SECS_PER_DAY } else { end }, price },
            ),
            final(self).service_fee == old(self).service_fee,
            !final(self).is_optimized,
    {
        let stored_end: u32 = if end == 0 {
            SECS_PER_DAY
        } else {
            end
        };
        self.periods.push(TimePeriod { start, end: stored_end, price });
        self.is_optimized = false;
    }

    /// Sets the uniform per-kWh service fee.
    pub fn set_service_fee(&mut self, fee: u64)
        requires
            old(self).inv(),
            fee <= MAX_RATE_MILLI,
        ensures
            final(self).inv(),
            final(self).periods@ == old(self).periods@,
            final(self).service_fee == fee,
            final(self).is_optimized == old(self).is_optimized,
    {
        self.service_fee = fee;
    }
}

/// The built-in tariff: off-peak, flat and peak bands over the day, with a
/// service fee of 0.8 units per kWh, already in normalized form.
pub open spec fn default_period_seq() -> Seq<TimePeriod> {
    seq![
        TimePeriod { start: 0, end: 25200, price: 400 },
        TimePeriod { start: 25200, end: 36000, price: 700 },
        TimePeriod { start: 36000, end: 54000, price: 1000 },
        TimePeriod { start: 54000, end: 64800, price: 700 },
        TimePeriod { start: 64800, end: 75600, price: 1000 },
        TimePeriod { start: 75600, end: 82800, price: 700 },
        TimePeriod { start: 82800, end: 86400, price: 400 },
    ]
}

impl Default for Prices {
    /// The built-in default table, substituted when no stored table can be
    /// read; it is already normalized.
    fn default() -> (r: Self)
        ensures
            r.inv(),
            r.is_optimized,
            r.periods@ =~= default_period_seq(),
            r.service_fee == 800,
    {
        let mut periods: Vec<TimePeriod> = Vec::new();
        periods.push(TimePeriod { start: 0, end: 25200, price: 400 });
        periods.push(TimePeriod { start: 25200, end: 36000, price: 700 });
        periods.push(TimePeriod { start: 36000, end: 54000, price: 1000 });
        periods.push(TimePeriod { start: 54000, end: 64800, price: 700 });
        periods.push(TimePeriod { start: 64800, end: 75600, price: 1000 });
        periods.push(TimePeriod { start: 75600, end: 82800, price: 700 });
        periods.push(TimePeriod { start: 82800, end: 86400, price: 400 });
        let r = Prices { periods, service_fee: 800, is_optimized: true };
        proof {
            assert(r.periods@ =~= default_period_seq());
            assert(tiles(r.periods@));
        }
        r
    }
}

/// In a tiling table, starts strictly increase, so the period at index `i`
/// starts no earlier than second `i`.
proof fn lemma_tiles_start_ge(ps: Seq<TimePeriod>, i: int)
    requires
        tiles(ps),
        0 <= i < ps.len(),
    ensures
        ps[i].start >= i,
    decreases i,
{
    if i > 0 {
        lemma_tiles_start_ge(ps, i - 1);
        assert(ps[i - 1].end == ps[i].start);
    }
}

/// A tiling table holds at most one period per second of the day.
pub proof fn lemma_tiles_len(ps: Seq<TimePeriod>)
    requires
        tiles(ps),
    ensures
        ps.len() <= SECS_PER_DAY,
{
    let last: int = ps.len() - 1;
    lemma_tiles_start_ge(ps, last);
    assert(ps[last].start < ps[last].end <= SECS_PER_DAY);
}

/// The one-day energy numerator is nonnegative and at most
/// power x MAX_RATE_MILLI x span x number of periods.
proof fn lemma_day_energy_bound(ps: Seq<TimePeriod>, s: int, e: int, power: int)
    requires
        forall|i: int| 0 <= i < ps.len() ==> period_bounds(#[trigger] ps[i]),
        0 <= power <= MAX_POWER_MILLI,
        s <= e,
    ensures
        0 <= spec_day_energy(ps, s, e, power),
        spec_day_energy(ps, s, e, power) <= power * MAX_RATE_MILLI * (e - s) * ps.len(),
    decreases ps.len(),
{
    if ps.len() == 0 {
    } else {
        let rest = ps.drop_first();
        assert(forall|i: int|
            0 <= i < rest.len() ==> period_bounds(#[trigger] rest[i])) by {
            assert(forall|i: int|
                0 <= i < rest.len() ==> rest[i] == ps[i + 1]);
        }
        lemma_day_energy_bound(rest, s, e, power);
        let ov = overlap_secs(ps[0], s, e);
        assert(0 <= ov <= e - s);
        assert(power * ps[0].price * ov <= power * MAX_RATE_MILLI * (e - s)) by (nonlinear_arith)
            requires
                0 <= power,
                0 <= ps[0].price <= MAX_RATE_MILLI,
                0 <= ov <= e - s,
        ;
        assert(0 <= power * ps[0].price * ov) by (nonlinear_arith)
            requires
                0 <= power,
                0 <= ps[0].price,
                0 <= ov,
        ;
        assert(power * MAX_RATE_MILLI * (e - s) * rest.len() + power * MAX_RATE_MILLI * (e - s)
            == power * MAX_RATE_MILLI * (e - s) * ps.len()) by (nonlinear_arith)
            requires
                rest.len() + 1 == ps.len(),
        ;
    }
}

/// The span energy numerator is nonnegative and at most
/// power x MAX_RATE_MILLI x number of periods x span length.
proof fn lemma_span_energy_bound(ps: Seq<TimePeriod>, s: int, e: int, power: int)
    requires
        forall|i: int| 0 <= i < ps.len() ==> period_bounds(#[trigger] ps[i]),
        0 <= power <= MAX_POWER_MILLI,
    ensures
        0 <= spec_span_energy(ps, s, e, power),
        spec_span_energy(ps, s, e, power) <= power * MAX_RATE_MILLI * ps.len() * (if e >= s {
            e - s
        } else {
            0
        }),
    decreases e - s,
{
    let day: int = SECS_PER_DAY as int;
    if s < 0 || e <= s {
        assert(power * MAX_RATE_MILLI * ps.len() * (if e >= s { e - s } else { 0 }) >= 0)
            by (nonlinear_arith)
            requires
                0 <= power,
                ps.len() >= 0,
        ;
    } else {
        let day_start: int = (s / day) * day;
        let day_end: int = day_start + day;
        assert(day_start <= s < day_end);
        assert(s % day == s - day_start);
        if e <= day_end {
            lemma_day_energy_bound(ps, s % day, e - day_start, power);
            assert(power * MAX_RATE_MILLI * ((e - day_start) - (s - day_start)) * ps.len()
                == power * MAX_RATE_MILLI * ps.len() * (e - s)) by (nonlinear_arith);
        } else {
            lemma_day_energy_bound(ps, s % day, day, power);
            lemma_span_energy_bound(ps, day_end, e, power);
            assert(power * MAX_RATE_MILLI * (day - (s - day_start)) * ps.len() + power
                * MAX_RATE_MILLI * ps.len() * (e - day_end) <= power * MAX_RATE_MILLI * ps.len() * (
            e - s)) by (nonlinear_arith)
                requires
                    0 <= power,
                    0 <= ps.len(),
                    day_end == day_start + day,
                    day_start <= s < day_end,
                    day_end < e,
        ;
        }
    }
}

impl Prices {
    /// Energy-cost numerator of the span [s, e) inside one day.
    fn day_energy_num(&self, s: u32, e: u32, power: u64) -> (r: u128)
        requires
            self.inv(),
            self.is_optimized,
            s < e,
            e <= SECS_PER_DAY,
            power <= MAX_POWER_MILLI,
        ensures
            r == spec_day_energy(self.periods@, s as int, e as int, power as int),
    {
        proof {
            lemma_tiles_len(self.periods@);
        }
        let ghost ps = self.periods@;
        let n: usize = self.periods.len();
        let mut acc: u128 = 0;
        let mut i: usize = 0;
        while i < n
            invariant
                self.inv(),
                n == ps.len() <= SECS_PER_DAY,
                ps == self.periods@,
                0 <= i <= n,
                s < e <= SECS_PER_DAY,
                power <= MAX_POWER_MILLI,
                acc == spec_day_energy(ps.take(i as int), s as int, e as int, power as int),
                acc <= (power as int) * (MAX_RATE_MILLI as int) * (e - s) * i,
            decreases n - i,
        {
            let p = self.periods[i];
            let lo: u32 = if s >= p.start {
                s
            } else {
                p.start
            };
            let hi: u32 = if e <= p.end {
                e
            } else {
                p.end
            };
            let ov: u32 = if hi >= lo {
                hi - lo
            } else {
                0
            };
            proof {
                assert(ov == overlap_secs(p, s as int, e as int));
                assert(0 <= ov <= e - s);
                assert((power as int) * (p.price as int) * (ov as int) <= (power as int) * (
                MAX_RATE_MILLI as int) * (e - s)) by (nonlinear_arith)
                    requires
                        0 <= power as int,
                        0 <= p.price <= MAX_RATE_MILLI,
                        0 <= ov <= e - s,
                ;
                assert(0 <= (power as int) * (p.price as int) * (ov as int)) by (nonlinear_arith)
                    requires
                        0 <= power as int,
                        0 <= p.price,
                        0 <= ov,
                ;
                assert((power as int) * (MAX_RATE_MILLI as int) * (e - s) * i + (power as int) * (
                MAX_RATE_MILLI as int) * (e - s) == (power as int) * (MAX_RATE_MILLI as int) * (e
                    - s) * (i + 1)) by (nonlinear_arith);
                lemma_day_energy_take_snoc(ps, i as int, s as int, e as int, power as int);
                assert((power as int) * (p.price as int) <= 100_000_000_000_000i128)
                    by (nonlinear_arith)
                    requires
                        0 <= power <= MAX_POWER_MILLI,
                        0 <= p.price <= MAX_RATE_MILLI,
                ;
                assert((power as int) * (p.price as int) * (ov as int)
                    <= 100_000_000_000_000i128 * 86400) by (nonlinear_arith)
                    requires
                        0 <= (power as int) * (p.price as int) <= 100_000_000_000_000i128,
                        0 <= ov <= 86400,
                ;
                assert(acc <= 100_000_000_000_000i128 * 86400 * 86400) by (nonlinear_arith)
                    requires
                        acc <= (power as int) * (MAX_RATE_MILLI as int) * (e - s) * i,
                        0 <= power <= MAX_POWER_MILLI,
                        0 <= e - s <= 86400,
                        0 <= i <= 86400,
                        0 <= acc,
                ;
            }
            acc = acc + (power as u128) * (p.price as u128) * (ov as u128);
            i = i + 1;
        }
        proof {
            assert(ps.take(n as int) =~= ps);
        }
        acc
    }
}

impl Prices {
    /// Energy-cost numerator of an arbitrary span, walked day by day.
    fn span_energy_num(&self, start_sec: u64, end_sec: u64, power: u64) -> (r: u128)
        requires
            self.inv(),
            self.is_optimized,
            start_sec < end_sec,
            end_sec <= MAX_TS_SEC,
            power <= MAX_POWER_MILLI,
        ensures
            r == spec_span_energy(self.periods@, start_sec as int, end_sec as int, power as int),
    {
        proof {
            lemma_tiles_len(self.periods@);
        }
        let ghost ps = self.periods@;
        let day: u64 = SECS_PER_DAY as u64;
        let mut cur: u64 = start_sec;
        let mut total: u128 = 0;
        while (cur / day + 1) * day < end_sec
            invariant
                self.inv(),
                self.is_optimized,
                ps == self.periods@,
                ps.len() <= SECS_PER_DAY,
                day == SECS_PER_DAY,
                start_sec <= cur < end_sec <= MAX_TS_SEC,
                power <= MAX_POWER_MILLI,
                spec_span_energy(ps, start_sec as int, end_sec as int, power as int) == total
                    + spec_span_energy(ps, cur as int, end_sec as int, power as int),
                total <= (power as int) * (MAX_RATE_MILLI as int) * ps.len() * (cur - start_sec),
            decreases end_sec - cur,
        {
            let day_start: u64 = (cur / day) * day;
            let day_end: u64 = day_start + day;
            let s_in_day: u32 = (cur - day_start) as u32;
            proof {
                assert(day_start <= cur < day_end);
                assert(s_in_day == (cur as int) % (day as int));
                lemma_day_energy_bound(ps, s_in_day as int, day as int, power as int);
                assert((power as int) * (MAX_RATE_MILLI as int) * ((day as int) - s_in_day)
                    * ps.len() <= (power as int) * (MAX_RATE_MILLI as int) * ps.len() * (day_end
                    - cur)) by (nonlinear_arith)
                    requires
                        day_end - cur == (day as int) - s_in_day,
                        0 <= power,
                        0 <= ps.len(),
                ;
                assert((power as int) * (MAX_RATE_MILLI as int) * ps.len() * (cur - start_sec) + (
                power as int) * (MAX_RATE_MILLI as int) * ps.len() * (day_end - cur) == (
                power as int) * (MAX_RATE_MILLI as int) * ps.len() * (day_end - start_sec))
                    by (nonlinear_arith);
                assert((power as int) * (MAX_RATE_MILLI as int) * ps.len() * (day_end - start_sec)
                    <= 100_000_000_000_000i128 * 86400 * 8_640_000_000i128) by (nonlinear_arith)
                    requires
                        0 <= power <= MAX_POWER_MILLI,
                        0 <= ps.len() <= 86400,
                        0 <= day_end - start_sec <= 8_640_000_000i128,
                ;
            }
            let d = self.day_energy_num(s_in_day, SECS_PER_DAY, power);
            total = total + d;
            cur = day_end;
        }
        let day_start: u64 = (cur / day) * day;
        proof {
            assert(day_start <= cur < end_sec <= day_start + day);
            assert((cur as int) % (day as int) == cur - day_start);
        }
        let d = self.day_energy_num((cur - day_start) as u32, (end_sec - day_start) as u32, power);
        proof {
            lemma_day_energy_bound(ps, (cur - day_start) as int, (end_sec - day_start) as int,
                power as int);
            assert(total <= 100_000_000_000_000i128 * 86400 * 8_640_000_000i128)
                by (nonlinear_arith)
                requires
                    total <= (power as int) * (MAX_RATE_MILLI as int) * ps.len() * (cur
                        - start_sec),
                    0 <= power <= MAX_POWER_MILLI,
                    0 <= ps.len() <= 86400,
                    0 <= cur - start_sec <= 8_640_000_000i128,
                    0 <= total,
            ;
            assert(total + d <= 100_000_000_000_000i128 * 86400 * 8_640_000_000i128 + (
            power as int) * (MAX_RATE_MILLI as int) * ((end_sec - day_start) - (cur - day_start))
                * ps.len());
            assert((power as int) * (MAX_RATE_MILLI as int) * ((end_sec - day_start) - (cur
                - day_start)) * ps.len() <= 100_000_000_000_000i128 * 86400 * 86400)
                by (nonlinear_arith)
                requires
                    0 <= power <= MAX_POWER_MILLI,
                    0 <= ps.len() <= 86400,
                    0 <= (end_sec - day_start) - (cur - day_start) <= 86400,
            ;
        }
        total + d
    }

    /// Total cost of [start_sec, end_sec) at `power_milli` watts, in cents,
    /// rounded half-up: the day-walked energy cost plus the uniform service
    /// fee, summed before rounding.
    pub fn calc_price(&self, start_sec: u64, end_sec: u64, power_milli: u64) -> (r: Result<
        u128,
        ErrorKind,
    >)
        requires
            self.inv(),
            end_sec <= MAX_TS_SEC,
            power_milli <= MAX_POWER_MILLI,
        ensures
            !self.is_optimized ==> r == Err::<u128, ErrorKind>(ErrorKind::NotOptimized),
            self.is_optimized && start_sec >= end_sec ==> r == Err::<u128, ErrorKind>(
                ErrorKind::InvalidRange,
            ),
            self.is_optimized && start_sec < end_sec ==> (r matches Ok(c) && c == cents_of(
                spec_span_energy(self.periods@, start_sec as int, end_sec as int,
                    power_milli as int) + spec_span_fee(start_sec as int, end_sec as int,
                    self.service_fee as int, power_milli as int),
            )),
    {
        if !self.is_optimized {
            return Err(ErrorKind::NotOptimized);
        }
        if start_sec >= end_sec {
            return Err(ErrorKind::InvalidRange);
        }
        let e_num = self.span_energy_num(start_sec, end_sec, power_milli);
        proof {
            assert((power_milli as int) * (self.service_fee as int) <= 100_000_000_000_000i128)
                by (nonlinear_arith)
                requires
                    0 <= power_milli <= MAX_POWER_MILLI,
                    0 <= self.service_fee <= MAX_RATE_MILLI,
            ;
            assert((power_milli as int) * (self.service_fee as int) * ((end_sec - start_sec)
                as int) <= 100_000_000_000_000i128 * 8_640_000_000i128) by (nonlinear_arith)
                requires
                    0 <= (power_milli as int) * (self.service_fee as int)
                        <= 100_000_000_000_000i128,
                    0 <= end_sec - start_sec <= 8_640_000_000i128,
            ;
        }
        let f_num = (power_milli as u128) * (self.service_fee as u128) * ((end_sec - start_sec)
            as u128);
        proof {
            lemma_span_energy_bound(self.periods@, start_sec as int, end_sec as int,
                power_milli as int);
            lemma_tiles_len(self.periods@);
            assert(e_num <= 100_000_000_000_000i128 * 86400 * 8_640_000_000i128)
                by (nonlinear_arith)
                requires
                    e_num <= (power_milli as int) * (MAX_RATE_MILLI as int) * self.periods@.len()
                        * (end_sec - start_sec),
                    0 <= power_milli <= MAX_POWER_MILLI,
                    0 <= self.periods@.len() <= 86400,
                    0 <= end_sec - start_sec <= 8_640_000_000i128,
                    0 <= e_num,
            ;
            assert(f_num <= 100_000_000_000_000i128 * 8_640_000_000i128) by (nonlinear_arith)
                requires
                    f_num == (power_milli as int) * (self.service_fee as int) * (end_sec
                        - start_sec),
                    0 <= power_milli <= MAX_POWER_MILLI,
                    0 <= self.service_fee <= MAX_RATE_MILLI,
                    0 <= end_sec - start_sec <= 8_640_000_000i128,
            ;
        }
        Ok((e_num + f_num + CENT_HALF) / CENT_NUM)
    }

    /// Energy cost and service-fee cost of [start_sec, end_sec) at
    /// `power_milli` watts, each in cents rounded half-up separately.
    pub fn calc_price_parts(&self, start_sec: u64, end_sec: u64, power_milli: u64) -> (r: Result<
        (u128, u128),
        ErrorKind,
    >)
        requires
            self.inv(),
            end_sec <= MAX_TS_SEC,
            power_milli <= MAX_POWER_MILLI,
        ensures
            !self.is_optimized ==> r == Err::<(u128, u128), ErrorKind>(ErrorKind::NotOptimized),
            self.is_optimized && start_sec >= end_sec ==> r == Err::<(u128, u128), ErrorKind>(
                ErrorKind::InvalidRange,
            ),
            self.is_optimized && start_sec < end_sec ==> (r matches Ok(c) && c.0 == cents_of(
                spec_span_energy(self.periods@, start_sec as int, end_sec as int,
                    power_milli as int),
            ) && c.1 == cents_of(
                spec_span_fee(start_sec as int, end_sec as int, self.service_fee as int,
                    power_milli as int),
            )),
    {
        if !self.is_optimized {
            return Err(ErrorKind::NotOptimized);
        }
        if start_sec >= end_sec {
            return Err(ErrorKind::InvalidRange);
        }
        let e_num = self.span_energy_num(start_sec, end_sec, power_milli);
        proof {
            assert((power_milli as int) * (self.service_fee as int) <= 100_000_000_000_000i128)
                by (nonlinear_arith)
                requires
                    0 <= power_milli <= MAX_POWER_MILLI,
                    0 <= self.service_fee <= MAX_RATE_MILLI,
            ;
            assert((power_milli as int) * (self.service_fee as int) * ((end_sec - start_sec)
                as int) <= 100_000_000_000_000i128 * 8_640_000_000i128) by (nonlinear_arith)
                requires
                    0 <= (power_milli as int) * (self.service_fee as int)
                        <= 100_000_000_000_000i128,
                    0 <= end_sec - start_sec <= 8_640_000_000i128,
            ;
        }
        let f_num = (power_milli as u128) * (self.service_fee as u128) * ((end_sec - start_sec)
            as u128);
        proof {
            lemma_span_energy_bound(self.periods@, start_sec as int, end_sec as int,
                power_milli as int);
            lemma_tiles_len(self.periods@);
            assert(e_num <= 100_000_000_000_000i128 * 86400 * 8_640_000_000i128)
                by (nonlinear_arith)
                requires
                    e_num <= (power_milli as int) * (MAX_RATE_MILLI as int) * self.periods@.len()
                        * (end_sec - start_sec),
                    0 <= power_milli <= MAX_POWER_MILLI,
                    0 <= self.periods@.len() <= 86400,
                    0 <= end_sec - start_sec <= 8_640_000_000i128,
                    0 <= e_num,
            ;
            assert(f_num <= 100_000_000_000_000i128 * 8_640_000_000i128) by (nonlinear_arith)
                requires
                    f_num == (power_milli as int) * (self.service_fee as int) * (end_sec
                        - start_sec),
                    0 <= power_milli <= MAX_POWER_MILLI,
                    0 <= self.service_fee <= MAX_RATE_MILLI,
                    0 <= end_sec - start_sec <= 8_640_000_000i128,
            ;
        }
        Ok(((e_num + CENT_HALF) / CENT_NUM, (f_num + CENT_HALF) / CENT_NUM))
    }
}

/// Total cost of a span against a given table, in cents; the standalone
/// entry point mirrors `Prices::calc_price`.
pub fn calc_price(prices: &Prices, start_sec: u64, end_sec: u64, power_milli: u64) -> (r: Result<
    u128,
    ErrorKind,
>)
    requires
        prices.inv(),
        end_sec <= MAX_TS_SEC,
        power_milli <= MAX_POWER_MILLI,
    ensures
        !prices.is_optimized ==> r == Err::<u128, ErrorKind>(ErrorKind::NotOptimized),
        prices.is_optimized && start_sec >= end_sec ==> r == Err::<u128, ErrorKind>(
            ErrorKind::InvalidRange,
        ),
        prices.is_optimized && start_sec < end_sec ==> (r matches Ok(c) && c == cents_of(
            spec_span_energy(prices.periods@, start_sec as int, end_sec as int, power_milli as int)
                + spec_span_fee(start_sec as int, end_sec as int, prices.service_fee as int,
                power_milli as int),
        )),
{
    prices.calc_price(start_sec, end_sec, power_milli)
}

/// True of a stored band that crosses midnight.
pub open spec fn crossing(p: TimePeriod) -> bool {
    p.start > p.end
}

/// The one or two day-local bands a stored band stands for: a crossing band
/// splits at midnight, an empty band contributes no time.
pub open spec fn split_one(p: TimePeriod) -> Seq<TimePeriod> {
    if p.start > p.end {
        seq![
            TimePeriod { start: p.start, end: SECS_PER_DAY, price: p.price },
            TimePeriod { start: 0, end: p.end, price: p.price },
        ]
    } else if p.start < p.end {
        seq![p]
    } else {
        Seq::<TimePeriod>::empty()
    }
}

/// All bands of a table, split at midnight and with empty bands dropped.
pub open spec fn split_periods(ps: Seq<TimePeriod>) -> Seq<TimePeriod>
    decreases ps.len(),
{
    if ps.len() == 0 {
        Seq::<TimePeriod>::empty()
    } else {
        split_one(ps[0]) + split_periods(ps.drop_first())
    }
}

/// How many bands of a table cross midnight.
pub open spec fn crossing_count(ps: Seq<TimePeriod>) -> int
    decreases ps.len(),
{
    if ps.len() == 0 {
        0
    } else {
        (if crossing(ps[0]) {
            1int
        } else {
            0int
        }) + crossing_count(ps.drop_first())
    }
}

/// Second `t` of the day falls inside the band of `p`.
pub open spec fn covers(p: TimePeriod, t: int) -> bool {
    p.start <= t < p.end
}

/// Some band of `ps` covers second `t`.
#[verifier::opaque]
pub open spec fn covered(ps: Seq<TimePeriod>, t: int) -> bool {
    exists|p: TimePeriod| ps.contains(p) && covers(p, t)
}

/// Some band of `ps` covers second `t` at price `price`.
#[verifier::opaque]
pub open spec fn priced(ps: Seq<TimePeriod>, t: int, price: u64) -> bool {
    exists|p: TimePeriod| ps.contains(p) && covers(p, t) && p.price == price
}

/// Two bands share at least one second.
pub open spec fn bands_overlap(p1: TimePeriod, p2: TimePeriod) -> bool {
    p1.start < p2.end && p2.start < p1.end
}

/// Two bands of `ps` with different prices share at least one second:
/// exactly the condition the normalization must reject.
#[verifier::opaque]
pub open spec fn has_price_conflict(ps: Seq<TimePeriod>) -> bool {
    exists|p1: TimePeriod, p2: TimePeriod|
        ps.contains(p1) && ps.contains(p2) && p1.price != p2.price && bands_overlap(p1, p2)
}

/// Bands ordered by start second.
pub open spec fn sorted_by_start(ps: Seq<TimePeriod>) -> bool {
    forall|i: int, j: int| 0 <= i < j < ps.len() ==> ps[i].start <= ps[j].start
}

/// Unrolls `split_periods` and `crossing_count` over a one-longer prefix.
proof fn lemma_split_take_snoc(ps: Seq<TimePeriod>, i: int)
    requires
        0 <= i < ps.len(),
    ensures
        split_periods(ps.take(i + 1)) == split_periods(ps.take(i)) + split_one(ps[i]),
        crossing_count(ps.take(i + 1)) == crossing_count(ps.take(i)) + (if crossing(ps[i]) {
            1int
        } else {
            0int
        }),
    decreases i,
{
    if i == 0 {
        assert(ps.take(1).drop_first() =~= ps.take(0));
        assert(split_periods(ps.take(0)) == Seq::<TimePeriod>::empty());
        assert(split_periods(ps.take(1)) =~= split_one(ps[0]) + split_periods(ps.take(0)));
        assert(split_periods(ps.take(0)) + split_one(ps[0]) =~= split_one(ps[0])
            + split_periods(ps.take(0)));
    } else {
        assert(ps.take(i + 1).drop_first() =~= ps.drop_first().take(i));
        assert(ps.take(i).drop_first() =~= ps.drop_first().take(i - 1));
        lemma_split_take_snoc(ps.drop_first(), i - 1);
        assert(ps.drop_first()[i - 1] == ps[i]);
        assert(split_one(ps.take(i + 1)[0]) + (split_periods(ps.drop_first().take(i - 1))
            + split_one(ps[i])) =~= (split_one(ps.take(i)[0]) + split_periods(
            ps.drop_first().take(i - 1),
        )) + split_one(ps[i]));
    }
}

/// A table whose bands are all forward (start before end) splits to itself
/// and has no crossing band.
proof fn lemma_split_identity(ps: Seq<TimePeriod>)
    requires
        forall|i: int| 0 <= i < ps.len() ==> (#[trigger] ps[i]).start < ps[i].end,
    ensures
        split_periods(ps) =~= ps,
        crossing_count(ps) == 0,
    decreases ps.len(),
{
    if ps.len() > 0 {
        let rest = ps.drop_first();
        assert(forall|i: int| 0 <= i < rest.len() ==> (#[trigger] rest[i]) == ps[i + 1]);
        lemma_split_identity(rest);
        assert(split_one(ps[0]) =~= seq![ps[0]]);
    }
}

/// Along a chain of bands, ends never decrease.
proof fn lemma_chain_prefix_ends(ps: Seq<TimePeriod>, j: int, k: int)
    requires
        forall|i: int| 0 <= i < ps.len() - 1 ==> (#[trigger] ps[i]).end <= ps[i + 1].start,
        forall|i: int| 0 <= i < ps.len() ==> (#[trigger] ps[i]).start < ps[i].end,
        0 <= j <= k < ps.len(),
    ensures
        ps[j].end <= ps[k].end,
    decreases k - j,
{
    if j < k {
        lemma_chain_prefix_ends(ps, j, k - 1);
        assert(ps[k - 1].end <= ps[k].start);
    }
}

/// Sorts bands by start second; an already-sorted table comes back unchanged.
fn sort_periods(v: &mut Vec<TimePeriod>)
    ensures
        final(v)@.len() == old(v)@.len(),
        sorted_by_start(final(v)@),
        final(v)@.to_multiset() == old(v)@.to_multiset(),
        sorted_by_start(old(v)@) ==> final(v)@ == old(v)@,
{
    broadcast use vstd::seq_lib::group_to_multiset_ensures;

    let n: usize = v.len();
    if n <= 1 {
        return ;
    }
    let mut i: usize = 1;
    while i < n
        invariant
            n == v@.len() == old(v)@.len(),
            1 <= i <= n,
            forall|a: int, b: int| 0 <= a < b < i ==> v@[a].start <= v@[b].start,
            v@.to_multiset() == old(v)@.to_multiset(),
            sorted_by_start(old(v)@) ==> v@ == old(v)@,
        decreases n - i,
    {
        let x = v[i];
        let mut k: usize = i;
        while k > 0 && v[k - 1].start > x.start
            invariant
                0 <= k <= i < n == v@.len(),
                x == v@[i as int],
                forall|j: int| k <= j < i ==> v@[j].start > x.start,
                sorted_by_start(old(v)@) ==> v@ == old(v)@ && k == i,
            decreases k,
        {
            k = k - 1;
        }
        let ghost pre = v@;
        let y = v.remove(i);
        v.insert(k, y);
        proof {
            assert(y == x);
            assert(v@ == pre.remove(i as int).insert(k as int, x));
            assert(v@.to_multiset() =~= pre.to_multiset()) by {
                vstd::seq_lib::to_multiset_remove::<TimePeriod>(pre, i as int);
                vstd::seq_lib::to_multiset_insert::<TimePeriod>(pre.remove(i as int), k as int, x);
                vstd::seq_lib::to_multiset_contains::<TimePeriod>(pre, x);
                assert(pre[i as int] == x);
                assert(pre.contains(x));
                assert(pre.to_multiset().count(x) > 0);
            }
            if sorted_by_start(old(v)@) {
                assert(pre == old(v)@);
                assert(k == i);
                assert(v@ =~= pre);
            }
            assert forall|a: int, b: int| 0 <= a < b < i + 1 implies v@[a].start
                <= v@[b].start by {
                let s2 = pre.remove(i as int).insert(k as int, x);
                assert(forall|j: int| 0 <= j < k ==> s2[j] == pre[j]);
                assert(s2[k as int] == x);
                assert(forall|j: int| k < j <= i ==> s2[j] == pre[j - 1]);
            }
        }
        i = i + 1;
    }
}

/// Every band produced by splitting a bounded table is bounded and
/// nonempty.
proof fn lemma_split_elements(ps: Seq<TimePeriod>)
    requires
        forall|i: int| 0 <= i < ps.len() ==> period_bounds(#[trigger] ps[i]),
    ensures
        forall|j: int|
            0 <= j < split_periods(ps).len() ==> period_bounds(#[trigger] split_periods(ps)[j])
                && split_periods(ps)[j].start < split_periods(ps)[j].end,
    decreases ps.len(),
{
    if ps.len() > 0 {
        let rest = ps.drop_first();
        assert(forall|i: int| 0 <= i < rest.len() ==> (#[trigger] rest[i]) == ps[i + 1]);
        lemma_split_elements(rest);
        assert(forall|j: int|
            0 <= j < split_one(ps[0]).len() ==> period_bounds(#[trigger] split_one(ps[0])[j])
                && split_one(ps[0])[j].start < split_one(ps[0])[j].end);
        assert(forall|j: int|
            0 <= j < split_periods(ps).len() ==> split_periods(ps)[j] == (if j < split_one(
                ps[0],
            ).len() {
                split_one(ps[0])[j]
            } else {
                split_periods(rest)[j - split_one(ps[0]).len()]
            }));
    }
}

/// A chain of nonempty bands is sorted by start.
proof fn lemma_chain_sorted(ps: Seq<TimePeriod>)
    requires
        forall|i: int| 0 <= i < ps.len() - 1 ==> (#[trigger] ps[i]).end <= ps[i + 1].start,
        forall|i: int| 0 <= i < ps.len() ==> (#[trigger] ps[i]).start < ps[i].end,
    ensures
        sorted_by_start(ps),
{
    assert forall|i: int, j: int| 0 <= i < j < ps.len() implies ps[i].start <= ps[j].start by {
        lemma_chain_prefix_ends(ps, i, j - 1);
        assert(ps[j - 1].end <= ps[j].start);
    }
}

/// Every band of `out` keeps, over each second it covers, the price that
/// the bands of `sp` gave that second, or zero where `sp` priced nothing.
#[verifier::opaque]
pub open spec fn repriced(out: Seq<TimePeriod>, sp: Seq<TimePeriod>) -> bool {
    forall|i: int, t: int|
        #![trigger covers(out[i], t)]
        0 <= i < out.len() && covers(out[i], t) ==> ((covered(sp, t) ==> priced(
            sp,
            t,
            out[i].price,
        )) && (!covered(sp, t) ==> out[i].price == 0))
}

/// A price conflict only looks at which bands a sequence contains, so it
/// carries over between sequences with equal multisets.
proof fn lemma_conflict_transfer(a: Seq<TimePeriod>, b: Seq<TimePeriod>)
    requires
        a.to_multiset() == b.to_multiset(),
    ensures
        has_price_conflict(a) == has_price_conflict(b),
{
    broadcast use vstd::seq_lib::group_to_multiset_ensures;

    reveal(has_price_conflict);

    if has_price_conflict(a) {
        let (p1, p2) = choose|p1: TimePeriod, p2: TimePeriod|
            a.contains(p1) && a.contains(p2) && p1.price != p2.price && bands_overlap(p1, p2);
        assert(a.to_multiset().count(p1) > 0);
        assert(a.to_multiset().count(p2) > 0);
        assert(b.contains(p1) && b.contains(p2));
    }
    if has_price_conflict(b) {
        let (p1, p2) = choose|p1: TimePeriod, p2: TimePeriod|
            b.contains(p1) && b.contains(p2) && p1.price != p2.price && bands_overlap(p1, p2);
        assert(b.to_multiset().count(p1) > 0);
        assert(b.to_multiset().count(p2) > 0);
        assert(a.contains(p1) && a.contains(p2));
    }
}

/// Coverage and pricing only look at which bands a sequence contains, so
/// `repriced` carries over between sequences with equal multisets.
proof fn lemma_repriced_transfer(out: Seq<TimePeriod>, a: Seq<TimePeriod>, b: Seq<TimePeriod>)
    requires
        a.to_multiset() == b.to_multiset(),
        repriced(out, a),
    ensures
        repriced(out, b),
{
    broadcast use vstd::seq_lib::group_to_multiset_ensures;

    reveal(repriced);
    reveal(covered);
    reveal(priced);

    assert forall|i: int, t: int|
        #![trigger covers(out[i], t)]
        0 <= i < out.len() && covers(out[i], t) implies ((covered(b, t) ==> priced(
        b,
        t,
        out[i].price,
    )) && (!covered(b, t) ==> out[i].price == 0)) by {
        if covered(b, t) {
            let w = choose|w: TimePeriod| b.contains(w) && covers(w, t);
            assert(b.to_multiset().count(w) > 0);
            assert(a.contains(w));
            assert(covered(a, t));
            let v = choose|v: TimePeriod| a.contains(v) && covers(v, t) && v.price == out[i].price;
            assert(a.to_multiset().count(v) > 0);
            assert(b.contains(v));
            assert(priced(b, t, out[i].price));
        } else {
            if covered(a, t) {
                let w = choose|w: TimePeriod| a.contains(w) && covers(w, t);
                assert(a.to_multiset().count(w) > 0);
                assert(b.contains(w));
                assert(covered(b, t));
            }
        }
    }
}

/// Appends the last open band and the trailing zero-price gap, completing
/// the tiling of the day.
#[verifier::rlimit(100)]
#[verifier::spinoff_prover]
fn finish_merge(
    merged: Vec<TimePeriod>,
    cur: TimePeriod,
    Ghost(tseq): Ghost<Seq<TimePeriod>>,
    Ghost(orig): Ghost<Seq<TimePeriod>>,
) -> (r: Vec<TimePeriod>)
    requires
        tseq.len() > 0,
        sorted_by_start(tseq),
        forall|a: int|
            0 <= a < tseq.len() ==> period_bounds(#[trigger] tseq[a]) && tseq[a].start
                < tseq[a].end,
        cur.start < cur.end <= SECS_PER_DAY,
        cur.price <= MAX_RATE_MILLI,
        cur.start < SECS_PER_DAY,
        forall|a: int|
            0 <= a < merged@.len() ==> (#[trigger] merged@[a]).start < merged@[a].end
                && merged@[a].end <= SECS_PER_DAY && merged@[a].price <= MAX_RATE_MILLI,
        merged@.len() > 0 ==> merged@[0].start == 0 && merged@[merged@.len() - 1].end == cur.start,
        merged@.len() == 0 ==> cur.start == 0,
        forall|a: int|
            0 <= a < merged@.len() - 1 ==> (#[trigger] merged@[a]).end == merged@[a + 1].start,
        forall|a: int| 0 <= a < tseq.len() ==> (#[trigger] tseq[a]).end <= cur.end,
        forall|t: int| cur.start <= t < cur.end ==> priced(tseq, t, cur.price),
        forall|a: int, t: int|
            #![trigger covers(merged@[a], t)]
            0 <= a < merged@.len() && covers(merged@[a], t) ==> ((covered(tseq, t) ==> priced(
                tseq,
                t,
                merged@[a].price,
            )) && (!covered(tseq, t) ==> merged@[a].price == 0)),
        tiles(orig) ==> tseq == orig && merged@ == orig.take(orig.len() - 1) && cur == orig[orig.len() - 1],
    ensures
        tiles(r@),
        forall|a: int| 0 <= a < r@.len() ==> period_bounds(#[trigger] r@[a]),
        repriced(r@, tseq),
        tiles(orig) ==> r@ == orig,
{
    let mut out = merged;
    let ghost pre = out@;
    proof {
        assert forall|t: int| cur.end <= t < SECS_PER_DAY implies !covered(tseq, t) by {
            reveal(covered);
            if covered(tseq, t) {
                let w = choose|w: TimePeriod| tseq.contains(w) && covers(w, t);
                let k = choose|k: int| 0 <= k < tseq.len() && tseq[k] == w;
                assert(tseq[k].end <= cur.end);
            }
        }
        assert forall|t: int| covers(cur, t) implies covered(tseq, t) && priced(
            tseq,
            t,
            cur.price,
        ) by {
            reveal(covered);
            reveal(priced);
            assert(priced(tseq, t, cur.price));
            let w = choose|w: TimePeriod| tseq.contains(w) && covers(w, t) && w.price == cur.price;
            assert(covered(tseq, t));
        }
        if tiles(orig) {
            assert(orig.take(orig.len() - 1).push(orig[orig.len() - 1]) =~= orig);
        }
    }
    out.push(cur);
    if cur.end < SECS_PER_DAY {
        out.push(TimePeriod { start: cur.end, end: SECS_PER_DAY, price: 0 });
    }
    proof {
        assert(tiles(out@));
        assert forall|i: int, t: int|
            #![trigger covers(out@[i], t)]
            0 <= i < out@.len() && covers(out@[i], t) implies ((covered(tseq, t) ==> priced(
            tseq,
            t,
            out@[i].price,
        )) && (!covered(tseq, t) ==> out@[i].price == 0)) by {
            if i < pre.len() {
                assert(covers(pre[i], t));
            } else if i == pre.len() {
                assert(out@[i] == cur);
            } else {
                assert(out@[i].price == 0 && !covered(tseq, t));
            }
        }
        assert(repriced(out@, tseq)) by {
            reveal(repriced);
        }
    }
    out
}

/// The merged prefix before any band is consumed: empty when the first
/// band starts at midnight, else one zero-price band up to its start,
/// which no input band covers.
fn init_merged(cur0: TimePeriod, Ghost(tseq): Ghost<Seq<TimePeriod>>) -> (m: Vec<TimePeriod>)
    requires
        tseq.len() > 0,
        cur0 == tseq[0],
        sorted_by_start(tseq),
        forall|a: int|
            0 <= a < tseq.len() ==> period_bounds(#[trigger] tseq[a]) && tseq[a].start
                < tseq[a].end,
    ensures
        cur0.start == 0 ==> m@ =~= Seq::<TimePeriod>::empty(),
        cur0.start > 0 ==> m@ =~= seq![
            (TimePeriod { start: 0, end: cur0.start, price: 0u64 }),
        ],
        forall|t: int| 0 <= t < cur0.start ==> !covered(tseq, t),
{
    proof {
        assert forall|t: int| 0 <= t < cur0.start implies !covered(tseq, t) by {
            reveal(covered);
            if covered(tseq, t) {
                let w = choose|w: TimePeriod| tseq.contains(w) && covers(w, t);
                let k = choose|k: int| 0 <= k < tseq.len() && tseq[k] == w;
                assert(tseq[k].start >= tseq[0].start);
            }
        }
    }
    let mut m: Vec<TimePeriod> = Vec::new();
    if cur0.start > 0 {
        m.push(TimePeriod { start: 0, end: cur0.start, price: 0 });
    }
    m
}

/// Walks the sorted bands, building the merged prefix and the currently
/// open band: a band starting inside the open run merges into it when the
/// prices agree (extending the run to the later end) and is rejected as an
/// `Overlap` when they differ, so the walk succeeds exactly when no two
/// differently priced bands share a second.
#[verifier::rlimit(100)]
#[verifier::spinoff_prover]
fn merge_loop(work: &Vec<TimePeriod>, Ghost(orig): Ghost<Seq<TimePeriod>>) -> (r: Result<
    (Vec<TimePeriod>, TimePeriod),
    ErrorKind,
>)
    requires
        work@.len() > 0,
        sorted_by_start(work@),
        forall|a: int|
            0 <= a < work@.len() ==> period_bounds(#[trigger] work@[a]) && work@[a].start
                < work@[a].end,
        tiles(orig) ==> work@ == orig,
    ensures
        r is Err ==> r == Err::<(Vec<TimePeriod>, TimePeriod), ErrorKind>(ErrorKind::Overlap)
            && has_price_conflict(work@) && !tiles(orig),
        !has_price_conflict(work@) ==> r is Ok,
        r matches Ok(mc) ==> ({
            let merged = mc.0@;
            let cur = mc.1;
            &&& !has_price_conflict(work@)
            &&& cur.start < cur.end <= SECS_PER_DAY
            &&& cur.price <= MAX_RATE_MILLI
            &&& cur.start < SECS_PER_DAY
            &&& forall|a: int|
                0 <= a < merged.len() ==> (#[trigger] merged[a]).start < merged[a].end
                    && merged[a].end <= SECS_PER_DAY && merged[a].price <= MAX_RATE_MILLI
            &&& merged.len() > 0 ==> merged[0].start == 0 && merged[merged.len() - 1].end
                == cur.start
            &&& merged.len() == 0 ==> cur.start == 0
            &&& forall|a: int|
                0 <= a < merged.len() - 1 ==> (#[trigger] merged[a]).end == merged[a + 1].start
            &&& forall|a: int| 0 <= a < work@.len() ==> (#[trigger] work@[a]).end <= cur.end
            &&& forall|t: int| cur.start <= t < cur.end ==> priced(work@, t, cur.price)
            &&& forall|a: int, t: int|
                #![trigger covers(merged[a], t)]
                0 <= a < merged.len() && covers(merged[a], t) ==> ((covered(work@, t) ==> priced(
                    work@,
                    t,
                    merged[a].price,
                )) && (!covered(work@, t) ==> merged[a].price == 0))
            &&& tiles(orig) ==> merged == orig.take(orig.len() - 1) && cur == orig[orig.len()
                - 1]
        }),
{
    let ghost tseq = work@;
    let nw2: usize = work.len();
    let mut cur: TimePeriod = work[0];
    let ghost mut wit: TimePeriod = tseq[0];
    proof {
        assert(tseq.contains(tseq[0]));
        assert forall|t: int| cur.start <= t < cur.end implies priced(tseq, t, cur.price) by {
            reveal(priced);
            assert(tseq.contains(cur) && covers(cur, t));
        }
    }
    let mut merged: Vec<TimePeriod> = init_merged(cur, Ghost(tseq));
    let mut j: usize = 1;
    while j < nw2
        invariant
            tseq == work@,
            nw2 == tseq.len(),
            1 <= j <= nw2,
            sorted_by_start(tseq),
            forall|a: int|
                0 <= a < tseq.len() ==> period_bounds(#[trigger] tseq[a]) && tseq[a].start
                    < tseq[a].end,
            tiles(orig) ==> tseq == orig,
            cur.start < cur.end <= SECS_PER_DAY,
            cur.price <= MAX_RATE_MILLI,
            cur.start <= tseq[j - 1].start,
            cur.start < SECS_PER_DAY,
            tseq.contains(wit) && wit.end == cur.end && wit.price == cur.price && wit.start
                <= tseq[j - 1].start,
            forall|a: int|
                0 <= a < merged@.len() ==> (#[trigger] merged@[a]).start < merged@[a].end
                    && merged@[a].end <= SECS_PER_DAY && merged@[a].price <= MAX_RATE_MILLI,
            merged@.len() > 0 ==> merged@[0].start == 0 && merged@[merged@.len() - 1].end
                == cur.start,
            merged@.len() == 0 ==> cur.start == 0,
            forall|a: int|
                0 <= a < merged@.len() - 1 ==> (#[trigger] merged@[a]).end == merged@[a + 1].start,
            forall|a: int| 0 <= a < j ==> (#[trigger] tseq[a]).end <= cur.end,
            forall|t: int| cur.start <= t < cur.end ==> priced(tseq, t, cur.price),
            forall|a: int|
                0 <= a < j ==> (#[trigger] tseq[a]).end <= cur.start || tseq[a].price
                    == cur.price,
            forall|a: int, b: int|
                0 <= a < b < j ==> !bands_overlap(tseq[a], tseq[b]) || (#[trigger] tseq[a]).price
                    == (#[trigger] tseq[b]).price,
            forall|a: int, t: int|
                #![trigger covers(merged@[a], t)]
                0 <= a < merged@.len() && covers(merged@[a], t) ==> ((covered(tseq, t) ==> priced(
                    tseq,
                    t,
                    merged@[a].price,
                )) && (!covered(tseq, t) ==> merged@[a].price == 0)),
            tiles(orig) ==> merged@ == orig.take(j - 1) && cur == orig[j - 1],
        decreases nw2 - j,
    {
        let p = work[j];
        if p.start < cur.end {
            if p.price != cur.price {
                proof {
                    assert(tseq.contains(tseq[j as int]));
                    assert(bands_overlap(wit, tseq[j as int]));
                    assert(has_price_conflict(tseq)) by {
                        reveal(has_price_conflict);
                    }
                    if tiles(orig) {
                        assert(orig[j - 1].end == orig[j as int].start);
                    }
                }
                return Err(ErrorKind::Overlap);
            }
            proof {
                assert(tseq.contains(tseq[j as int]));
                if p.end > cur.end {
                    wit = tseq[j as int];
                }
                assert forall|t: int|
                    cur.start <= t < (if p.end > cur.end {
                        p.end as int
                    } else {
                        cur.end as int
                    }) implies priced(tseq, t, cur.price) by {
                    if t >= cur.end {
                        reveal(priced);
                        assert(tseq.contains(tseq[j as int]) && covers(tseq[j as int], t));
                    }
                }
                assert forall|a: int| 0 <= a < j + 1 implies (#[trigger] tseq[a]).end
                    <= cur.start || tseq[a].price == cur.price by {
                    if a < j && tseq[a].end > cur.start {
                    }
                }
                assert forall|a: int, b: int| 0 <= a < b < j + 1 implies !bands_overlap(
                    tseq[a],
                    tseq[b],
                ) || (#[trigger] tseq[a]).price == (#[trigger] tseq[b]).price by {
                    if b == j && bands_overlap(tseq[a], tseq[b]) {
                        assert(tseq[a].end > tseq[j as int].start);
                        assert(tseq[j as int].start >= tseq[j - 1].start >= cur.start);
                        assert(tseq[a].price == cur.price);
                    }
                }
                if tiles(orig) {
                    assert(orig[j - 1].end == orig[j as int].start);
                    assert(false);
                }
            }
            cur = TimePeriod {
                start: cur.start,
                end: if p.end > cur.end {
                    p.end
                } else {
                    cur.end
                },
                price: cur.price,
            };
        } else if p.start > cur.end {
            proof {
                assert(tseq.contains(tseq[j as int]));
                assert forall|t: int| cur.end <= t < p.start implies !covered(tseq, t) by {
                    reveal(covered);
                    if covered(tseq, t) {
                        let w = choose|w: TimePeriod| tseq.contains(w) && covers(w, t);
                        let k = choose|k: int| 0 <= k < tseq.len() && tseq[k] == w;
                        if k < j {
                            assert(tseq[k].end <= cur.end);
                        } else {
                            assert(tseq[k].start >= tseq[j as int].start);
                        }
                    }
                }
                assert forall|t: int| covers(cur, t) implies covered(tseq, t) && priced(
                    tseq,
                    t,
                    cur.price,
                ) by {
                    reveal(covered);
                    reveal(priced);
                    assert(priced(tseq, t, cur.price));
                    let w = choose|w: TimePeriod|
                        tseq.contains(w) && covers(w, t) && w.price == cur.price;
                    assert(covered(tseq, t));
                }
                assert forall|t: int| p.start <= t < p.end implies priced(tseq, t, p.price) by {
                    reveal(priced);
                    assert(tseq.contains(tseq[j as int]) && covers(tseq[j as int], t));
                }
                wit = tseq[j as int];
            }
            merged.push(cur);
            merged.push(TimePeriod { start: cur.end, end: p.start, price: 0 });
            cur = p;
        } else {
            proof {
                assert(tseq.contains(tseq[j as int]));
                assert forall|t: int| covers(cur, t) implies covered(tseq, t) && priced(
                    tseq,
                    t,
                    cur.price,
                ) by {
                    reveal(covered);
                    reveal(priced);
                    assert(priced(tseq, t, cur.price));
                    let w = choose|w: TimePeriod|
                        tseq.contains(w) && covers(w, t) && w.price == cur.price;
                    assert(covered(tseq, t));
                }
                assert forall|t: int| p.start <= t < p.end implies priced(tseq, t, p.price) by {
                    reveal(priced);
                    assert(tseq.contains(tseq[j as int]) && covers(tseq[j as int], t));
                }
                wit = tseq[j as int];
                if tiles(orig) {
                    assert(orig.take(j - 1).push(orig[j - 1]) =~= orig.take(j as int));
                }
            }
            merged.push(cur);
            cur = p;
        }
        j = j + 1;
    }
    proof {
        assert(!has_price_conflict(tseq)) by {
            reveal(has_price_conflict);
            if has_price_conflict(tseq) {
                let (p1, p2) = choose|p1: TimePeriod, p2: TimePeriod|
                    tseq.contains(p1) && tseq.contains(p2) && p1.price != p2.price
                        && bands_overlap(p1, p2);
                let k1 = choose|k1: int| 0 <= k1 < tseq.len() && tseq[k1] == p1;
                let k2 = choose|k2: int| 0 <= k2 < tseq.len() && tseq[k2] == p2;
                if k1 < k2 {
                    assert(!bands_overlap(tseq[k1], tseq[k2]) || tseq[k1].price
                        == tseq[k2].price);
                } else {
                    assert(k2 < k1);
                    assert(!bands_overlap(tseq[k2], tseq[k1]) || tseq[k2].price
                        == tseq[k1].price);
                }
            }
        }
    }
    Ok((merged, cur))
}

/// Merges a sorted run of bands into a tiling of the day: overlapping bands
/// of one price merge, gaps fill with zero-price bands, and an overlap
/// between differently priced bands is rejected.
#[verifier::rlimit(100)]
#[verifier::spinoff_prover]
fn merge_sorted(work: &Vec<TimePeriod>, Ghost(orig): Ghost<Seq<TimePeriod>>) -> (r: Result<
    Vec<TimePeriod>,
    ErrorKind,
>)
    requires
        work@.len() > 0,
        sorted_by_start(work@),
        forall|a: int|
            0 <= a < work@.len() ==> period_bounds(#[trigger] work@[a]) && work@[a].start
                < work@[a].end,
        tiles(orig) ==> work@ == orig,
    ensures
        r matches Ok(m) ==> tiles(m@) && !has_price_conflict(work@) && repriced(m@, work@)
            && forall|a: int| 0 <= a < m@.len() ==> period_bounds(#[trigger] m@[a]),
        !has_price_conflict(work@) ==> r is Ok,
        r is Err ==> r == Err::<Vec<TimePeriod>, ErrorKind>(ErrorKind::Overlap)
            && has_price_conflict(work@) && !tiles(orig),
        tiles(orig) ==> (r matches Ok(m) && m@ == orig),
{
    match merge_loop(work, Ghost(orig)) {
        Ok(mc) => {
            let (merged, cur) = mc;
            let out = finish_merge(merged, cur, Ghost(work@), Ghost(orig));
            Ok(out)
        },
        Err(e) => Err(e),
    }
}

impl Prices {
    /// Normalizes the table: splits the at-most-one midnight-crossing band
    /// in two, sorts by start, merges overlapping same-price bands into
    /// their union, fills the gaps with zero-price bands so the result
    /// tiles the whole day, and marks the table ready for queries.
    ///
    /// Rejections leave the table untouched: more than one crossing band is
    /// `MultipleMidnightCrossings`, and two differently priced bands
    /// sharing a second is `Overlap` — exactly then. On success every
    /// second of the day keeps the price an input band gave it, seconds no
    /// band covered price at zero, and a table already in normalized form
    /// comes back unchanged.
    pub fn optimize(&mut self) -> (r: Result<(), ErrorKind>)
        requires
            old(self).inv(),
        ensures
            final(self).inv(),
            final(self).service_fee == old(self).service_fee,
            r == Err::<(), ErrorKind>(ErrorKind::MultipleMidnightCrossings) <==> crossing_count(
                old(self).periods@,
            ) > 1,
            crossing_count(old(self).periods@) <= 1 ==> (r == Err::<(), ErrorKind>(
                ErrorKind::Overlap,
            ) <==> has_price_conflict(split_periods(old(self).periods@))),
            crossing_count(old(self).periods@) <= 1 && !has_price_conflict(
                split_periods(old(self).periods@),
            ) ==> r is Ok,
            r is Err ==> *final(self) == *old(self),
            r is Ok ==> final(self).is_optimized && tiles(final(self).periods@),
            r is Ok ==> repriced(final(self).periods@, split_periods(old(self).periods@)),
            tiles(old(self).periods@) ==> r is Ok && final(self).periods@ == old(self).periods@,
    {
        broadcast use vstd::seq_lib::group_to_multiset_ensures;

        let ghost orig = self.periods@;
        let ghost sp = split_periods(orig);
        let n0: usize = self.periods.len();
        let mut work: Vec<TimePeriod> = Vec::new();
        let mut cnt: usize = 0;
        let mut i: usize = 0;
        while i < n0
            invariant
                *self == *old(self),
                old(self).inv(),
                n0 == orig.len(),
                orig == self.periods@,
                0 <= i <= n0,
                work@ == split_periods(orig.take(i as int)),
                cnt == crossing_count(orig.take(i as int)),
                0 <= cnt <= i,
            decreases n0 - i,
        {
            let p = self.periods[i];
            proof {
                lemma_split_take_snoc(orig, i as int);
            }
            if p.start > p.end {
                cnt = cnt + 1;
                work.push(TimePeriod { start: p.start, end: SECS_PER_DAY, price: p.price });
                work.push(TimePeriod { start: 0, end: p.end, price: p.price });
            } else if p.start < p.end {
                work.push(p);
            }
            proof {
                assert(work@ =~= split_periods(orig.take(i + 1)));
            }
            i = i + 1;
        }
        proof {
            assert(orig.take(n0 as int) =~= orig);
            lemma_split_elements(orig);
            if tiles(orig) {
                lemma_split_identity(orig);
            }
        }
        if cnt > 1 {
            return Err(ErrorKind::MultipleMidnightCrossings);
        }
        let nw: usize = work.len();
        if nw == 0 {
            let mut filled: Vec<TimePeriod> = Vec::new();
            filled.push(TimePeriod { start: 0, end: SECS_PER_DAY, price: 0 });
            self.periods = filled;
            self.is_optimized = true;
            proof {
                assert(tiles(self.periods@));
                assert(sp.len() == 0);
                assert(!has_price_conflict(sp)) by {
                    reveal(has_price_conflict);
                }
                assert(repriced(self.periods@, sp)) by {
                    reveal(repriced);
                    reveal(covered);
                }
            }
            return Ok(());
        }
        sort_periods(&mut work);
        let ghost tseq = work@;
        proof {
            assert forall|a: int| 0 <= a < tseq.len() implies period_bounds(#[trigger] tseq[a])
                && tseq[a].start < tseq[a].end by {
                assert(tseq.contains(tseq[a]));
                assert(tseq.to_multiset().count(tseq[a]) > 0);
                assert(sp.contains(tseq[a]));
                let k = choose|k: int| 0 <= k < sp.len() && sp[k] == tseq[a];
                assert(period_bounds(sp[k]) && sp[k].start < sp[k].end);
            }
            lemma_conflict_transfer(tseq, sp);
            if tiles(orig) {
                lemma_chain_sorted(orig);
                assert(sorted_by_start(orig));
                assert(tseq == orig);
            }
        }
        let m = merge_sorted(&work, Ghost(orig));
        match m {
            Ok(mv) => {
                proof {
                    lemma_repriced_transfer(mv@, tseq, sp);
                }
                self.periods = mv;
                self.is_optimized = true;
                Ok(())
            },
            Err(e) => Err(e),
        }
    }
}

/// Some band at or after index `j` of a contiguous run covers second `t`.
proof fn lemma_chain_cover_from(ps: Seq<TimePeriod>, j: int, t: int)
    requires
        forall|i: int| 0 <= i < ps.len() - 1 ==> (#[trigger] ps[i]).end == ps[i + 1].start,
        0 <= j < ps.len(),
        ps[j].start <= t < ps[ps.len() - 1].end,
    ensures
        exists|i: int| j <= i < ps.len() && covers(ps[i], t),
    decreases ps.len() - j,
{
    if t < ps[j].end {
        assert(covers(ps[j], t));
    } else {
        assert(j < ps.len() - 1);
        lemma_chain_cover_from(ps, j + 1, t);
    }
}

/// Full coverage: a normalized table assigns every second of the day to
/// exactly one band, with no gap and no overlap.
pub proof fn lemma_tiles_full_coverage(ps: Seq<TimePeriod>, t: int)
    requires
        tiles(ps),
        0 <= t < SECS_PER_DAY,
    ensures
        exists|i: int| 0 <= i < ps.len() && covers(#[trigger] ps[i], t),
        forall|i: int, k: int|
            0 <= i < ps.len() && 0 <= k < ps.len() && covers(ps[i], t) && covers(ps[k], t) ==> i
                == k,
{
    lemma_chain_cover_from(ps, 0, t);
    assert forall|i: int, k: int|
        0 <= i < ps.len() && 0 <= k < ps.len() && covers(ps[i], t) && covers(
            ps[k],
            t,
        ) implies i == k by {
        if i < k {
            lemma_chain_prefix_ends(ps, i, k - 1);
            assert(ps[k - 1].end == ps[k].start);
        }
        if k < i {
            lemma_chain_prefix_ends(ps, k, i - 1);
            assert(ps[i - 1].end == ps[i].start);
        }
    }
}

/// Pricing results over a bounded span stay within fixed numeric bounds,
/// so they fit the cost fields downstream.
pub proof fn lemma_price_cents_bounds(ps: Seq<TimePeriod>, fee: int, s: int, e: int, power: int)
    requires
        tiles(ps),
        forall|i: int| 0 <= i < ps.len() ==> period_bounds(#[trigger] ps[i]),
        0 <= fee <= MAX_RATE_MILLI,
        0 <= power <= MAX_POWER_MILLI,
        0 <= s <= e <= MAX_TS_SEC,
    ensures
        0 <= spec_span_energy(ps, s, e, power),
        0 <= spec_span_fee(s, e, fee, power),
        cents_of(spec_span_energy(ps, s, e, power)) <= 3_000_000_000_000_000_000_000,
        cents_of(spec_span_fee(s, e, fee, power)) <= 3_000_000_000_000_000_000_000,
        cents_of(spec_span_energy(ps, s, e, power) + spec_span_fee(s, e, fee, power))
            <= 3_000_000_000_000_000_000_000,
        0 <= cents_of(spec_span_energy(ps, s, e, power)),
        0 <= cents_of(spec_span_fee(s, e, fee, power)),
        0 <= cents_of(spec_span_energy(ps, s, e, power) + spec_span_fee(s, e, fee, power)),
{
    lemma_tiles_len(ps);
    lemma_span_energy_bound(ps, s, e, power);
    let en = spec_span_energy(ps, s, e, power);
    let fn_ = spec_span_fee(s, e, fee, power);
    assert(en <= 100_000_000_000_000i128 * 86400 * 8_640_000_000i128) by (nonlinear_arith)
        requires
            en <= power * MAX_RATE_MILLI * ps.len() * (e - s),
            0 <= power <= MAX_POWER_MILLI,
            0 <= ps.len() <= 86400,
            0 <= e - s <= 8_640_000_000i128,
            0 <= en,
    ;
    assert(fn_ <= 100_000_000_000_000i128 * 8_640_000_000i128) by (nonlinear_arith)
        requires
            fn_ == power * fee * (e - s),
            0 <= power <= MAX_POWER_MILLI,
            0 <= fee <= MAX_RATE_MILLI,
            0 <= e - s <= 8_640_000_000i128,
    ;
    assert(fn_ >= 0) by (nonlinear_arith)
        requires
            fn_ == power * fee * (e - s),
            0 <= power,
            0 <= fee,
            0 <= e - s,
    ;
}

/// Rounding a split total: the cents of a sum differ from the summed cents
/// of the parts by at most one cent.
pub proof fn lemma_cents_round_split(a: int, b: int)
    requires
        a >= 0,
        b >= 0,
    ensures
        cents_of(a) + cents_of(b) - 1 <= cents_of(a + b),
        cents_of(a + b) <= cents_of(a) + cents_of(b) + 1,
{
    let d = CENT_NUM as int;
    let h = CENT_HALF as int;
    vstd::arithmetic::div_mod::lemma_fundamental_div_mod(a + h, d);
    vstd::arithmetic::div_mod::lemma_fundamental_div_mod(b + h, d);
    let qa = (a + h) / d;
    let ra = (a + h) % d;
    let qb = (b + h) / d;
    let rb = (b + h) % d;
    assert(a + b + h == d * (qa + qb) + (ra + rb - h));
    if ra + rb - h < 0 {
        vstd::arithmetic::div_mod::lemma_fundamental_div_mod_converse(
            a + b + h,
            d,
            qa + qb - 1,
            ra + rb - h + d,
        );
    } else if ra + rb - h < d {
        vstd::arithmetic::div_mod::lemma_fundamental_div_mod_converse(
            a + b + h,
            d,
            qa + qb,
            ra + rb - h,
        );
    } else {
        vstd::arithmetic::div_mod::lemma_fundamental_div_mod_converse(
            a + b + h,
            d,
            qa + qb + 1,
            ra + rb - h - d,
        );
    }
}

/// Day-split additivity: splitting a pricing span at any midnight leaves the
/// raw energy and fee numerators exactly additive, so the rounded totals of
/// the two halves differ from the rounded whole by at most one cent.
pub proof fn lemma_day_split_additivity(
    ps: Seq<TimePeriod>,
    fee: int,
    s: int,
    m: int,
    e: int,
    power: int,
)
    requires
        0 <= s < m < e,
        m % (SECS_PER_DAY as int) == 0,
        forall|i: int| 0 <= i < ps.len() ==> period_bounds(#[trigger] ps[i]),
        0 <= power <= MAX_POWER_MILLI,
        0 <= fee,
    ensures
        spec_span_energy(ps, s, e, power) == spec_span_energy(ps, s, m, power) + spec_span_energy(
            ps,
            m,
            e,
            power,
        ),
        spec_span_fee(s, e, fee, power) == spec_span_fee(s, m, fee, power) + spec_span_fee(
            m,
            e,
            fee,
            power,
        ),
        cents_of(spec_span_energy(ps, s, m, power) + spec_span_fee(s, m, fee, power)) + cents_of(
            spec_span_energy(ps, m, e, power) + spec_span_fee(m, e, fee, power),
        ) - 1 <= cents_of(spec_span_energy(ps, s, e, power) + spec_span_fee(s, e, fee, power)),
        cents_of(spec_span_energy(ps, s, e, power) + spec_span_fee(s, e, fee, power)) <= cents_of(
            spec_span_energy(ps, s, m, power) + spec_span_fee(s, m, fee, power),
        ) + cents_of(spec_span_energy(ps, m, e, power) + spec_span_fee(m, e, fee, power)) + 1,
    decreases m - s,
{
    let day = SECS_PER_DAY as int;
    let day_start = (s / day) * day;
    let day_end = day_start + day;
    assert(day_start <= s < day_end);
    lemma_span_split_at_midnight(ps, s, m, e, power);
    assert(power * fee * (e - s) == power * fee * (m - s) + power * fee * (e - m))
        by (nonlinear_arith);
    assert(power * fee * (m - s) >= 0) by (nonlinear_arith)
        requires
            power >= 0,
            fee >= 0,
            m - s >= 0,
    ;
    assert(power * fee * (e - m) >= 0) by (nonlinear_arith)
        requires
            power >= 0,
            fee >= 0,
            e - m >= 0,
    ;
    lemma_span_energy_bound(ps, s, m, power);
    lemma_span_energy_bound(ps, m, e, power);
    lemma_cents_round_split(
        spec_span_energy(ps, s, m, power) + spec_span_fee(s, m, fee, power),
        spec_span_energy(ps, m, e, power) + spec_span_fee(m, e, fee, power),
    );
}

/// The raw energy numerator is additive across any midnight inside the span.
proof fn lemma_span_split_at_midnight(ps: Seq<TimePeriod>, s: int, m: int, e: int, power: int)
    requires
        0 <= s < m < e,
        m % (SECS_PER_DAY as int) == 0,
    ensures
        spec_span_energy(ps, s, e, power) == spec_span_energy(ps, s, m, power) + spec_span_energy(
            ps,
            m,
            e,
            power,
        ),
    decreases m - s,
{
    let day = SECS_PER_DAY as int;
    let day_start = (s / day) * day;
    let day_end = day_start + day;
    assert(day_start <= s < day_end);
    assert(m >= day_end) by {
        let k = m / day;
        vstd::arithmetic::div_mod::lemma_fundamental_div_mod(m, day);
        assert(m == day * k);
        if k <= s / day {
            assert(day * k <= day * (s / day)) by (nonlinear_arith)
                requires
                    k <= s / day,
                    day > 0,
            ;
        }
    }
    if m == day_end {
        assert(spec_span_energy(ps, s, m, power) == spec_day_energy(ps, s % day, day, power));
    } else {
        lemma_span_split_at_midnight(ps, day_end, m, e, power);
    }
}

/// Unrolls `spec_day_energy` over a one-longer prefix.
proof fn lemma_day_energy_take_snoc(ps: Seq<TimePeriod>, i: int, s: int, e: int, power: int)
    requires
        0 <= i < ps.len(),
    ensures
        spec_day_energy(ps.take(i + 1), s, e, power) == spec_day_energy(ps.take(i), s, e, power)
            + power * ps[i].price * overlap_secs(ps[i], s, e),
    decreases i,
{
    if i == 0 {
        assert(ps.take(1).drop_first() =~= ps.take(0));
    } else {
        assert(ps.take(i + 1).drop_first() =~= ps.drop_first().take(i));
        assert(ps.take(i).drop_first() =~= ps.drop_first().take(i - 1));
        lemma_day_energy_take_snoc(ps.drop_first(), i - 1, s, e, power);
        assert(ps.drop_first()[i - 1] == ps[i]);
    }
}

} // verus!
