pub mod clock;
pub mod dca_dips;
pub mod dca_static;
pub mod decimal;
pub mod gateway;
pub mod order_util;
pub mod strat;
pub mod strat_util;
