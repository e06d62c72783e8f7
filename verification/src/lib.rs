pub mod error;
pub mod memory;
pub mod text;
pub mod profiles;
pub mod cli;
pub mod registry;
pub mod units;
pub mod heuristics;
pub mod profiler;
pub mod selector;
mod clock;
pub mod paths;
pub mod state;
pub mod resolve;
pub mod server;
pub mod commands;
pub mod doctor;
pub mod logging;
pub mod monitor;
pub mod laws;
