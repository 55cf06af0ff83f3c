//! Verified core of SuDel, a permanent file and folder deleter.
//!
//! The library holds the decisions, text formats and path rules of the tool;
//! the program around it performs the file system, process and window work.

pub mod agent;
pub mod cli;
pub mod config;
pub mod install;
pub mod logging;
pub mod paths;
pub mod selection;
pub mod shred;
pub mod targets;
pub mod text;
