//! The core of a small interactive command shell, free of input and output.
//!
//! A line of input is split into pipeline stages ([`parse_pipeline`]), every
//! stage into words ([`tokenize_with_quotes`]). Running a pipeline is a state
//! machine ([`Shell::step`]): the caller probes paths, prints lines and
//! spawns processes on the machine's behalf and reports back what happened,
//! so that every decision is taken, and proved, in this crate.
pub mod builtin;
pub mod exec;
pub mod parse;
pub mod repl;
pub mod script;
pub mod shell;
pub mod text;
pub mod token;

pub use builtin::{is_builtin_name, is_intrinsic};
pub use exec::{Action, Event, Phase, PipelineRun, SpawnRequest};
pub use parse::{parse_pipeline, CommandSpec};
pub use repl::{interpret, prompt, should_exit, Turn};
pub use shell::{is_executable, is_runnable, join_path, FileStatus, Shell};
pub use token::tokenize_with_quotes;
