//! What the command line tool decides.

pub mod touchpad;
