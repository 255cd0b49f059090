//! The configuration that a trader is started with.
use crate::strats::dca_dips::DipStrat;
use crate::strats::dca_static::StaticStrat;
use crate::strats::strat::Strat;
use vstd::prelude::*;

verus! {

/// Percent between one tier of the dip strategy and the next.
pub const DIP_INTERVAL: u32 = 1;

/// Percent below the ask of the dip strategy's lowest tier.
pub const DIP_BOTTOM: u32 = 15;

/// Where and as whom to reach an exchange.
#[derive(Debug)]
pub struct Api {
    pub url: String,
    pub key: String,
    pub sec: String,
}

/// One fixed-amount strategy.
#[derive(Debug)]
pub struct StratStatic {
    pub symbol: String,
    /// Trade on the sandbox exchange.
    pub sandbox: Option<bool>,
    /// Budget of one purchase, in units of 1/SCALE USD.
    pub usd_per_trade: u64,
    /// Weekday of the purchase, Monday = 1.
    pub trade_day: u32,
    pub trade_hr: u32,
    pub trade_min: u32,
    pub trade_sec: u32,
    /// Run the first cycle at once.
    pub immediate: Option<bool>,
}

/// One dip-bucket strategy.
#[derive(Debug)]
pub struct StratDips {
    pub symbol: String,
    /// Trade on the sandbox exchange.
    pub sandbox: Option<bool>,
    /// Budget of one week, in whole USD.
    pub usd_per_window: u32,
    /// Weekday of the purchase, Monday = 1.
    pub trade_day: u32,
    pub trade_hr: u32,
    pub trade_min: u32,
    pub trade_sec: u32,
    /// Run the first cycle at once.
    pub immediate: Option<bool>,
}

/// The whole configuration.
#[derive(Debug)]
pub struct Cfg {
    pub api: Api,
    pub sandbox: Api,
    pub strat_static: Vec<StratStatic>,
    pub strat_dips: Vec<StratDips>,
}

/// Whether an optional flag is set.
pub fn flag(f: Option<bool>) -> (b: bool)
    ensures
        b == (f == Some(true)),
{
    match f {
        Some(b) => b,
        None => false,
    }
}

impl StratStatic {
    /// Whether the strategy trades on the sandbox exchange.
    pub fn on_sandbox(&self) -> (b: bool)
        ensures
            b == (self.sandbox == Some(true)),
    {
        flag(self.sandbox)
    }

    /// The scheduler of this strategy.
    pub fn scheduler(&self) -> (s: Strat)
        ensures
            s@ == Strat::new_spec(
                self.symbol@,
                self.trade_day as i64,
                self.trade_hr,
                self.trade_min,
                self.trade_sec,
            ),
    {
        Strat::new(
            self.symbol.as_str(),
            self.trade_day as i64,
            self.trade_hr,
            self.trade_min,
            self.trade_sec,
        )
    }

    /// The strategy itself.
    pub fn strategy(&self) -> (s: StaticStrat)
        ensures
            s == (StaticStrat { usd_per_trade: self.usd_per_trade, placing: false }),
    {
        StaticStrat::new(self.usd_per_trade)
    }
}

impl StratDips {
    /// Whether the strategy trades on the sandbox exchange.
    pub fn on_sandbox(&self) -> (b: bool)
        ensures
            b == (self.sandbox == Some(true)),
    {
        flag(self.sandbox)
    }

    /// The scheduler of this strategy.
    pub fn scheduler(&self) -> (s: Strat)
        ensures
            s@ == Strat::new_spec(
                self.symbol@,
                self.trade_day as i64,
                self.trade_hr,
                self.trade_min,
                self.trade_sec,
            ),
    {
        Strat::new(
            self.symbol.as_str(),
            self.trade_day as i64,
            self.trade_hr,
            self.trade_min,
            self.trade_sec,
        )
    }

    /// The strategy itself: one bucket per percent, down to fifteen
    /// percent below the ask. It is always there.
    pub fn strategy(&self) -> (s: Option<DipStrat>)
        ensures
            s matches Some(d) && d@ == crate::strats::dca_dips::dip_initial(
                self.usd_per_window,
                DIP_INTERVAL,
                DIP_BOTTOM,
            ) && d@.wf(),
    {
        DipStrat::new(self.usd_per_window, DIP_INTERVAL, DIP_BOTTOM)
    }
}

} // verus!
