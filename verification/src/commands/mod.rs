//! The subcommands: what each one decides, with the running of git and the
//! terminal left to the caller.
pub mod add;
pub mod remove;
pub mod clean;
pub mod list;
pub mod init;
pub mod shell;
