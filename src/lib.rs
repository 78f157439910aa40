//! A download daemon's core: job records and their state machine, the
//! per-job executor's decisions, the admission-controlled scheduler, and the
//! control endpoint's request handling.

pub mod commands;
pub mod job;
pub mod naming;
pub mod protocol;
pub mod scheduler;
pub mod text;

pub use commands::{ListCommands, Manager, ManagerCommands};
pub use job::{DownloadExecutor, DownloadObject, State};

