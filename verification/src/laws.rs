//! What the library does, in plain terms: characters by their numbers, texts by their literals,
//! and runs of the host by the steps that it is asked for and the answers that it gives.

pub mod faults;
pub mod paths;
pub mod starting;
pub mod stopping;
pub mod targets;
pub mod texts;
pub mod titles;
pub mod windows;
