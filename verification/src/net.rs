//! The way to the backend: the cellular modem and the cloud controller.

pub mod cellular;
pub mod cloud;
