//! The verified core of DCAutoQuest: the naming rules for simulated games and the decisions of
//! starting and stopping a simulation.

pub mod fault;
pub mod laws;
pub mod path;
pub mod simulation;
pub mod start;
pub mod target;
pub mod text;
pub mod title;
pub mod window;
pub mod workspace;
