//! A price monitor for stock positions: alert rules on profit, loss and
//! draw-down, the quote stream's message format, and the trading calendar.
pub mod text;
pub mod config;
pub mod clock;
pub mod models;
pub mod engine;
pub mod json;
pub mod quote;
pub mod scheduler;
pub mod monitor;
pub mod notify;
pub mod playback;
pub mod session;
