//! Discovery of Python interpreter environments: virtual environments found
//! under a project root and environments reported by an environment manager,
//! merged into one list and rendered as aligned text.
//!
//! The library works on plain snapshots of the outside world (which files
//! exist, what a directory holds, what the manager printed), so every rule of
//! the discovery is a verified function of its arguments.

pub mod text;
pub mod paths;
pub mod environment;
pub mod scanner;
pub mod scan_laws;
pub mod report;
pub mod render;
pub mod discovery;
pub mod commands;
