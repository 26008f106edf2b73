//! An asynchronous, rotating log sink, written as a verified core.
//!
//! The crate holds the decisions of the sink: how an event becomes text and
//! commands, how the worker answers each command, and how a bounded set of
//! aged files is rotated. The thread, the channel and the file system stay
//! with the caller, which performs the requests that the worker hands out.

pub mod compress;
pub mod config;
pub mod files;
pub mod handle;
pub mod levels;
pub mod pipeline;
pub mod retention;
pub mod rotation;
pub mod sink;
pub mod text;
pub mod worker;
pub mod world;

pub use compress::{compress_file, Aging};
pub use config::{open, stdout, Log2};
pub use handle::{start, start_log2, Handle, Session};
pub use levels::{get_level, level, set_level, Level};
pub use rotation::{maintain, rotate, Context, Step};
pub use sink::{Formatter, ModuleFilter, Record};
pub use worker::{Command, Event, Phase, Request, Stage, Worker};
