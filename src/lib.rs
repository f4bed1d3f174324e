//! Checks the tools a WordPress migration needs, installs WP-CLI when it is
//! missing, and runs preflight checks on the source and target installs. Every
//! command goes through an `Executor`; each command's result is classified
//! from its exit status and from failure keywords in its output.

pub mod command;
pub mod bash_operations;
pub mod download_methods;
pub mod wp_cli_interface;
pub mod workflow;
pub mod config;
