//! Lines of stack-machine code as the translator keeps them: a command is
//! known by its kind.

use crate::translator::command;
use crate::translator::command::parse_command;
use crate::translator::error::{SyntaxError, SyntaxErrorView};
use vstd::prelude::*;
use vstd::string::StringExecFns;

verus! {

/// Reads stack-machine code. It holds nothing: each line is read on its
/// own.
#[derive(Debug)]
pub struct Parser {}

/// The kinds of command of the stack machine.
#[derive(Debug, Clone, Copy, PartialEq, Eq, Structural)]
pub enum CommandType {
    Add,
    Sub,
    Neg,
    Eq,
    Gt,
    Lt,
    And,
    Or,
    Not,
    Push(u32),
}

/// The kind of a command.
pub open spec fn kind_of(c: command::Command) -> CommandType {
    match c {
        command::Command::Add => CommandType::Add,
        command::Command::Sub => CommandType::Sub,
        command::Command::Neg => CommandType::Neg,
        command::Command::Eq => CommandType::Eq,
        command::Command::Gt => CommandType::Gt,
        command::Command::Lt => CommandType::Lt,
        command::Command::And => CommandType::And,
        command::Command::Or => CommandType::Or,
        command::Command::Not => CommandType::Not,
        command::Command::Push(value) => CommandType::Push(value),
    }
}

/// The kind of command that a line of text names. Where the first word
/// names no operation, the error keeps the whole line.
pub open spec fn parse_kind(line: Seq<char>) -> Result<CommandType, SyntaxErrorView> {
    match parse_command(line) {
        Ok(c) => Ok(kind_of(c)),
        Err(SyntaxErrorView::InvalidOperator(_)) => Err(SyntaxErrorView::InvalidCommand(line)),
        Err(e) => Err(e),
    }
}

impl CommandType {
    /// Reads a line of text as a kind of command.
    pub fn try_from(value: &str) -> (r: Result<CommandType, SyntaxError>)
        ensures
            match parse_kind(value@) {
                Ok(kind) => r == Ok::<CommandType, SyntaxError>(kind),
                Err(e) => r matches Err(x) && x@ == e,
            },
    {
        match command::Command::try_from(value) {
            Ok(command::Command::Add) => Ok(CommandType::Add),
            Ok(command::Command::Sub) => Ok(CommandType::Sub),
            Ok(command::Command::Neg) => Ok(CommandType::Neg),
            Ok(command::Command::Eq) => Ok(CommandType::Eq),
            Ok(command::Command::Gt) => Ok(CommandType::Gt),
            Ok(command::Command::Lt) => Ok(CommandType::Lt),
            Ok(command::Command::And) => Ok(CommandType::And),
            Ok(command::Command::Or) => Ok(CommandType::Or),
            Ok(command::Command::Not) => Ok(CommandType::Not),
            Ok(command::Command::Push(value)) => Ok(CommandType::Push(value)),
            Err(SyntaxError::InvalidOperator(_)) => Err(
                SyntaxError::InvalidCommand(String::from_str(value)),
            ),
            Err(e) => Err(e),
        }
    }
}

/// One line of stack-machine code, parsed.
#[derive(Debug, Clone, Copy, PartialEq, Eq, Structural)]
pub struct Command {
    kind: CommandType,
}

impl View for Command {
    type V = CommandType;

    closed spec fn view(&self) -> CommandType {
        self.kind
    }
}

impl DeepView for Command {
    type V = CommandType;

    open spec fn deep_view(&self) -> CommandType {
        self@
    }
}

impl Command {
    /// Reads a line of text as a command.
    pub fn try_from(value: &str) -> (r: Result<Command, SyntaxError>)
        ensures
            match parse_kind(value@) {
                Ok(kind) => r matches Ok(c) && c@ == kind,
                Err(e) => r matches Err(x) && x@ == e,
            },
    {
        match CommandType::try_from(value) {
            Ok(kind) => Ok(Command { kind }),
            Err(e) => Err(e),
        }
    }

    /// The kind of the command.
    pub fn kind(&self) -> (kind: CommandType)
        ensures
            kind == self@,
    {
        self.kind
    }
}

} // verus!
