use vstd::prelude::*;

pub mod text;
pub mod time;
pub mod render;
pub mod entur;
pub mod upgrade;
pub mod location;
pub mod watch;
pub mod config;
pub mod cli;
pub mod commands;
pub mod doctor;

verus! {
} // verus!
