//! A minimal terminal process monitor: snapshots of host memory and processes
//! are ranked by CPU usage and rendered as a text frame.
pub mod text;
pub mod units;
pub mod process;
pub mod frame;
pub mod monitor;

