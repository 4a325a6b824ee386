//! Verified core of a two-sensor environment monitor.
//!
//! Two leaf drivers share one shape of contract: initialize once, then read
//! measurements repeatedly. The humidity/temperature driver decodes a raw
//! 6-byte register block read over a two-wire bus; the single-wire
//! thermometer driver discovers its device directory among the kernel's
//! device entries and parses the textual status file exposed there. A
//! platform predicate decides whether either driver talks to real hardware
//! or serves fixed simulated values.
//!
//! All bus transactions, sleeps and file reads happen outside this crate;
//! the functions here take the raw bytes those produce as plain values and
//! are verified for every such value.

pub mod ds18b20;
pub mod measurement;
pub mod onewire;
pub mod parse;
pub mod sht30;
pub mod util;

pub use util::is_rpi;
