//! Local process supervision and diagnostics for a desktop shell that runs one
//! worker process: a supervisor state machine, a bounded tail reader for
//! structured log files, and a reconciler for the sync-history table.

pub mod config;
pub mod discord;
pub mod history;
pub mod json;
pub mod launch;
pub mod logfile;
pub mod settings;
pub mod supervisor;
pub mod tail;
pub mod text;
pub mod timefmt;
pub mod updates;
