//! The decisions behind `demonator`, a typewriter-style player for terminal demos.
//!
//! Everything here computes on plain values. Reading the terminal, running shells,
//! sleeping and printing are left to the program around the library.

pub mod bytes;
pub mod capture;
pub mod color;
pub mod conditions;
pub mod config;
pub mod demo;
pub mod dialog;
pub mod dry_run;
pub mod highlight;
pub mod json_path;
pub mod laws;
pub mod nav;
pub mod pattern;
pub mod play;
pub mod promises;
pub mod reload;
pub mod run;
pub mod session;
pub mod snapshot;
pub mod substitute;
pub mod text;
pub mod timing;
pub mod typing;
pub mod vars;
pub mod watch;
