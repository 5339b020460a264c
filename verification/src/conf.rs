//! Resolved configuration: station, tariff-file, transport and clock
//! settings, with the built-in defaults.

use vstd::prelude::*;

use crate::price::MAX_POWER_MILLI;

verus! {

/// Largest accepted clock acceleration factor.
pub const MAX_SPEED: u64 = 1_000_000;

/// The two charge connector families a station can serve.
#[derive(Clone, Copy, Debug, PartialEq, Eq, Structural)]
pub enum ChargeType {
    /// Fast charging.
    Fast,
    /// Slow charging.
    Slow,
}

/// Where the tariff table is stored.
#[derive(Clone, Debug)]
pub struct PriceConf {
    /// Path of the tariff-table document.
    pub path: String,
}

/// Default path of the tariff-table document.
pub fn price_conf_path() -> (r: String)
    ensures
        r@ == "prices.json"@,
{
    "prices.json".to_string()
}

impl Default for PriceConf {
    fn default() -> (r: Self)
        ensures
            r.path@ == "prices.json"@,
    {
        PriceConf { path: price_conf_path() }
    }
}

/// Station hardware settings.
#[derive(Clone, Copy, Debug)]
pub struct ChargeConf {
    /// Connector family served.
    pub charge_type: ChargeType,
    /// Charging power in watts.
    pub power: u64,
    /// Bound on the session queue length.
    pub size: u32,
    /// Whether a simulated breakdown may be triggered.
    pub allow_break: bool,
}

/// Default connector family.
pub fn default_charge_type() -> (r: ChargeType)
    ensures
        r == ChargeType::Fast,
{
    ChargeType::Fast
}

/// Default charging power: 30 kW, in watts.
pub fn default_power() -> (r: u64)
    ensures
        r == 30_000u64,
{
    30_000
}

/// Default queue bound.
pub fn default_size() -> (r: u32)
    ensures
        r == 2u32,
{
    2
}

/// By default the station cannot be broken down from the keyboard.
pub fn disallow_break() -> (r: bool)
    ensures
        r == false,
{
    false
}

impl ChargeConf {
    /// Settings the station accepts: positive bounded power.
    pub open spec fn wf(&self) -> bool {
        1 <= self.power <= MAX_POWER_MILLI
    }
}

impl Default for ChargeConf {
    fn default() -> (r: Self)
        ensures
            r.charge_type == ChargeType::Fast,
            r.power == 30_000u64,
            r.size == 2u32,
            r.allow_break == false,
            r.wf(),
    {
        ChargeConf {
            charge_type: default_charge_type(),
            power: default_power(),
            size: default_size(),
            allow_break: false,
        }
    }
}

/// Where the remote counterpart listens.
#[derive(Clone, Debug)]
pub struct WebSocketConf {
    /// Connection URL.
    pub url: String,
}

/// Default connection URL.
pub fn default_websocket_url() -> (r: String)
    ensures
        r@ == "ws://localhost:8080/ws"@,
{
    "ws://localhost:8080/ws".to_string()
}

impl Default for WebSocketConf {
    fn default() -> (r: Self)
        ensures
            r.url@ == "ws://localhost:8080/ws"@,
    {
        WebSocketConf { url: default_websocket_url() }
    }
}

/// Virtual-clock settings.
#[derive(Clone, Debug)]
pub struct TimeConf {
    /// Between-update timer interval, in milliseconds.
    pub update_interval: u64,
    /// Display time zone name.
    pub tz: String,
    /// Clock acceleration factor.
    pub speed: u64,
    /// Optional fixed start time, in milliseconds since the epoch.
    pub start_time: Option<u64>,
}

/// Default update interval: five seconds, in milliseconds.
pub fn default_update_interval() -> (r: u64)
    ensures
        r == 5000u64,
{
    5000
}

/// Default display time zone name.
pub fn default_tz() -> (r: String)
    ensures
        r@ == "Asia/Shanghai"@,
{
    "Asia/Shanghai".to_string()
}

/// Default acceleration factor: real time.
pub fn default_speed() -> (r: u64)
    ensures
        r == 1u64,
{
    1
}

impl TimeConf {
    /// Settings the clock accepts: a positive bounded acceleration factor.
    pub open spec fn wf(&self) -> bool {
        1 <= self.speed <= MAX_SPEED
    }
}

impl Default for TimeConf {
    fn default() -> (r: Self)
        ensures
            r.update_interval == 5000u64,
            r.tz@ == "Asia/Shanghai"@,
            r.speed == 1u64,
            r.start_time is None,
            r.wf(),
    {
        TimeConf {
            update_interval: default_update_interval(),
            tz: default_tz(),
            speed: default_speed(),
            start_time: None,
        }
    }
}

/// The whole resolved configuration.
#[derive(Clone, Debug)]
pub struct Conf {
    pub price: PriceConf,
    pub charge: ChargeConf,
    pub websocket: WebSocketConf,
    pub time: TimeConf,
}

impl Conf {
    /// A configuration every component accepts.
    pub open spec fn wf(&self) -> bool {
        self.charge.wf() && self.time.wf()
    }
}

impl Default for Conf {
    fn default() -> (r: Self)
        ensures
            r.wf(),
            r.charge.charge_type == ChargeType::Fast,
            r.charge.power == 30_000u64,
            r.charge.size == 2u32,
            r.time.update_interval == 5000u64,
            r.time.speed == 1u64,
            r.time.start_time is None,
    {
        Conf {
            price: PriceConf::default(),
            charge: ChargeConf::default(),
            websocket: WebSocketConf::default(),
            time: TimeConf::default(),
        }
    }
}

} // verus!
