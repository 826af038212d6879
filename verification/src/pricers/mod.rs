//! Pricers: what each pricer asks of the market and the checks it makes
//! before valuing a trade.
pub mod generalpricers;
pub mod pricers;
pub mod cashflows;
pub mod equity;
pub mod fx;
pub mod fixedincome;
pub mod rates;
