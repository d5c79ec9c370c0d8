//! Core of a personal desktop activity tracker: a per-process usage ledger,
//! the store that partitions it by machine, pattern filtering, reporting and
//! the mutation commands that act on the store.

pub mod autostart;
pub mod cli;
pub mod clock;
pub mod config;
pub mod error;
pub mod filtering;
pub mod ledger;
pub mod list;
pub mod mode;
pub mod monitor;
pub mod process;
pub mod process_list;
pub mod rank;
pub mod store;
pub mod store_management;
pub mod tag;
pub mod text;
pub mod utils;
