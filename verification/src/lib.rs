//! Verified core of a solar telemetry node.
//!
//! The node reads an MPPT charger over VE.Direct, averages the readings,
//! batches them into protocol-buffer uploads and hands them to a cellular
//! modem that is driven through AT commands. This crate holds the decisions
//! of that firmware as plain functions and small state machines: every
//! byte, line and event goes in as a value and every action comes out as a
//! value, so the behaviour is stated in contracts and checked by Verus.
//! Serial ports, pins, timers and channels live outside, with whoever runs
//! the machines.

pub mod at;
pub mod bounded;
pub mod net;
pub mod proto;
pub mod sensor;
pub mod solar_monitor;
pub mod text;
pub mod time;
