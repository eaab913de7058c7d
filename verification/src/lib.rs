//! Maps short project names to filesystem paths for a directory-jumping
//! command-line tool: loads a YAML configuration of named projects,
//! expands the stored path strings (`~`, `$HOME`, bare-relative tokens),
//! and decides what the tool should print and with which exit status.

pub mod config;
pub mod expand;
pub mod resolve;
pub mod yaml;
