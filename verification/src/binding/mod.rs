//! What a control does when it is used.

pub mod action;
pub mod button;
pub mod effect;
pub mod key_combo;
pub mod ring;
pub mod shape;
