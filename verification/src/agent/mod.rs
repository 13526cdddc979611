//! What the background agent decides.

pub mod bindings;
pub mod capture;
pub mod capture_plan;
pub mod devices;
pub mod dispatch;
pub mod haptics;
pub mod input;
pub mod keyboard;
pub mod lifecycle;
pub mod lights;
pub mod monitor;
pub mod reapply;
pub mod session;
pub mod startup;
