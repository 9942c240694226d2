//! The command line of the password manager: what a command says, and what
//! is done for it.

pub mod handler;
pub mod parser;
pub mod run;
