//! The logic behind the `borax` command line, verified.

pub mod session;
pub mod text;
pub mod paths;
pub mod record;
pub mod event;
pub mod dict;
pub mod config;
pub mod resolution;
pub mod listing;
pub mod discovery;
pub mod bib;
pub mod cache;
pub mod run;
pub mod cli;
pub mod journal;
pub mod pipeline;
pub mod ledger;
pub mod runlog;
pub mod undo;
pub mod renaming;
pub mod dispatch;
