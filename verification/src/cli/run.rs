//! Which handler a command goes to.

use super::parser::{Command, CommandView, Operation, Resource};
use vstd::prelude::*;

verus! {

/// What can be done for a command.
#[derive(Debug, Clone, Copy, PartialEq, Eq, Structural)]
pub enum Handler {
    AddVault,
    AddPassword,
    GetPassword,
}

/// The message for a command that nothing can be done for.
pub const UNEXPECTED_COMMAND: &'static str = "Unexpected command";

/// The handler that a command goes to: a vault can be added, a password can
/// be added or be got.
pub open spec fn handler_for(cmd: CommandView) -> Option<Handler> {
    match (cmd.op, cmd.on) {
        (Operation::Add, Resource::Vault) => Some(Handler::AddVault),
        (Operation::Add, Resource::Password) => Some(Handler::AddPassword),
        (Operation::Get, Resource::Password) => Some(Handler::GetPassword),
        (Operation::Get, Resource::Vault) => None,
    }
}

/// Finds the handler associated with the Command.
pub fn handler_of(cmd: &Command) -> (handler: Result<Handler, String>)
    ensures
        match handler {
            Ok(h) => handler_for(cmd@) == Some(h),
            Err(message) => handler_for(cmd@) is None && message@ == UNEXPECTED_COMMAND@,
        },
{
    match cmd {
        Command { op: Operation::Add, on: Resource::Vault, .. } => Ok(Handler::AddVault),
        Command { op: Operation::Add, on: Resource::Password, .. } => Ok(Handler::AddPassword),
        Command { op: Operation::Get, on: Resource::Password, .. } => Ok(Handler::GetPassword),
        _ => Err(UNEXPECTED_COMMAND.to_owned()),
    }
}

} // verus!
