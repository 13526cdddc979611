//! A scripted agent for working on a user interface without hardware.

pub mod inventory;
pub mod observation;
pub mod state;
