//! Last-trade-price aggregation over an exchange's public ticker data.
pub mod decimal;
pub mod errors;
pub mod kraken_trade;
pub mod rest;
pub mod response;
pub mod aggregate;
