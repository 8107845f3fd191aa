//! A host monitor: samples CPU, memory, GPU and process telemetry, collapses
//! the process list into one group per executable name, and shapes the result
//! into the rows of a dashboard report.
//!
//! - [`monitor`] samples the host through `sysinfo` and hands out what it holds
//!   as plain values.
//! - [`process`] groups process samples by name; [`ranking`] orders the groups
//!   by memory.
//! - [`cpu`], [`gpu`] and [`text`] hold the per-core samples, the GPU metrics
//!   and the identity line, each with its placeholder for what is missing.
//! - [`report`] turns one snapshot into a report; [`units`] converts bytes.
//!
//! Percentages are carried as the bit pattern of a single-precision number and
//! are never interpreted here; `f32::from_bits` gives the number back.

pub mod cpu;
pub mod gpu;
pub mod monitor;
pub mod process;
pub mod ranking;
pub mod report;
pub mod text;
pub mod units;
