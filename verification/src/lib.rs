//! The state engine of a terminal resource monitor.
//!
//! The crate holds the bounded sample windows that back the scrolling charts,
//! the rules that turn one reading of the host into chart values and table
//! rows, the ranked process list with its cursor, and the key handling of the
//! control loop. Reading the host, drawing and waiting for events are left to
//! the program that embeds it.
//!
//! Numbers that are fractional in nature are kept as fixed-point integers:
//! a chart value counts thousandths, a utilisation counts hundredths of a
//! percent.

pub mod fifo;
pub mod text;
pub mod metrics;
pub mod process;
pub mod app;
pub mod event;
pub mod window;
