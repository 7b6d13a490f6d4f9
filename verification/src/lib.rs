//! Watches whether price moves on Binance futures lead the same symbols on MEXC futures.
//!
//! A quote of either exchange goes through [`monitor::handle_quote`]: a move on Binance is noted, and
//! how long MEXC takes to follow it is recorded. [`alert`] looks at the difference between the
//! exchanges, tells the subscribers of the bot about one that would pay, and asks for a trade where
//! trades are wanted. The other modules hold the settings, the statistics and their reports, the
//! access to the dashboard, and the requests to MEXC and to the bot. [`laws`] states what holds of
//! them in terms of what comes in and what comes out.

pub mod text;
pub mod decimal;
pub mod table;
pub mod json;
pub mod clock;
pub mod config;
pub mod quotes;
pub mod stats;
pub mod state;
pub mod alert;
pub mod monitor;
pub mod csv;
pub mod report;
pub mod auth;
pub mod trade;
pub mod telegram;
pub mod trade_stats;
pub mod web;
pub mod laws;
