//! Driver-side logic for the Universal Chess Interface (UCI) text protocol:
//! request values (position, options, time control), command serialization,
//! and parsing of the engine's `bestmove` reply.
//!
//! Process plumbing (spawning the engine, pipes, the reader task) lives in a
//! thin unverified shell around this crate; everything here is pure values.

pub mod job;
pub mod numfmt;
pub mod opts;
pub mod scan;
pub mod wire;

pub use job::{GoJob, GoResult, Position, Timecontrol};
pub use numfmt::dec_string;
pub use opts::OptionTable;
