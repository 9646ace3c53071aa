//! Sensors of the node.

pub mod ve_direct;
