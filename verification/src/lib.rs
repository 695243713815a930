use vstd::prelude::*;

pub mod cache;
pub mod command;
pub mod config_dir;
pub mod daemon;
pub mod dry_run;
pub mod error;
pub mod listener;
pub mod polkit;
pub mod store;
pub mod text;
