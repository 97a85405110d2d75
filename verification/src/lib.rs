//! Named shortcuts for database containers, and the command lines that open
//! a client session inside them.
//!
//! The library decides and computes; it runs no command and reads no file.
//! Its caller runs the command lines that it gives and hands back what they
//! wrote.

pub mod cli;
pub mod config;
pub mod db;
pub mod error;
pub mod interactive;
pub mod string_map;
pub mod text;
pub mod validation;

pub use cli::Cli;
pub use config::{Config, DatabaseConnection, DatabaseType};
pub use db::{CommandOutcome, DatabaseConnector, DetectedContainer, Invocation};
pub use error::AppError;
pub use interactive::{get_connection_interactively, get_connection_with_auto_detect};
pub use string_map::StringMap;
