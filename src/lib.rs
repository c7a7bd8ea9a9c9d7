//! Cafeteria menus read from a legacy remoting endpoint.
//!
//! The library holds the logic: the reply parser and record decoder
//! (`parse_dwr`), the per-run menu cache (`cache`), food filters (`config`),
//! the choices behind the command line (`cli`) and the text of a menu
//! (`display`). Fetching, reading files and printing are left to the caller.

pub mod text;
pub mod types;
pub mod parse_dwr;
pub mod cache;
pub mod config;
pub mod cli;
pub mod display;
