//! Core of a weekly dollar-cost-averaging trader: schedule arithmetic, order
//! bookkeeping and the two purchase strategies, written as functions from
//! state and gateway reply to next state and gateway request.
pub mod cfg;
pub mod strats;
