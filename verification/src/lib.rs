//! Configuration, gesture and capture logic for Logitech devices.

pub mod agent;
pub mod binding;
pub mod cli;
pub mod config;
pub mod device;
pub mod device_order;
pub mod diagnostics;
pub mod geometry;
pub mod hid;
pub mod mock;
pub mod ordered;
pub mod text;
pub mod touchpad;
