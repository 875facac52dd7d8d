//! Decision engine, sensor aggregator and actuator task protocol of an
//! unattended grow-room controller.
//!
//! Temperatures are carried as tenths of a degree and humidities as tenths of
//! a percent, so that every rule works on exact integers.
use vstd::prelude::*;

pub mod config;
pub mod controller;
pub mod environment;
pub mod schedule;
pub mod supervisor;

verus! {

/// The UDP port on which status updates are broadcast by default.
pub const PORT: u16 = 8089;

} // verus!
