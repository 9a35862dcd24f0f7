//! What can be wrong with a line of stack-machine code.

use crate::text::decimal::NumberError;
use vstd::prelude::*;
use vstd::string::StringExecFns;

verus! {

/// Why a line is no stack-machine command.
#[derive(Debug)]
pub enum SyntaxError {
    /// The line holds no word at all.
    MissingOperator,
    /// Nothing follows `push`.
    MissingSegment,
    /// The word after `push` is not `constant`.
    ExpectedConstant,
    /// Nothing follows `push constant`.
    MissingConstant,
    /// The word after `push constant` is no 32-bit decimal number.
    InvalidConstant(NumberError),
    /// The first word, kept here, names no operation.
    InvalidOperator(String),
    /// The line, kept here whole, begins with a word that names no operation.
    InvalidCommand(String),
}

/// A `SyntaxError` with each text as its sequence of characters.
pub enum SyntaxErrorView {
    MissingOperator,
    MissingSegment,
    ExpectedConstant,
    MissingConstant,
    InvalidConstant(NumberError),
    InvalidOperator(Seq<char>),
    InvalidCommand(Seq<char>),
}

impl View for SyntaxError {
    type V = SyntaxErrorView;

    open spec fn view(&self) -> SyntaxErrorView {
        match self {
            SyntaxError::MissingOperator => SyntaxErrorView::MissingOperator,
            SyntaxError::MissingSegment => SyntaxErrorView::MissingSegment,
            SyntaxError::ExpectedConstant => SyntaxErrorView::ExpectedConstant,
            SyntaxError::MissingConstant => SyntaxErrorView::MissingConstant,
            SyntaxError::InvalidConstant(e) => SyntaxErrorView::InvalidConstant(*e),
            SyntaxError::InvalidOperator(word) => SyntaxErrorView::InvalidOperator(word@),
            SyntaxError::InvalidCommand(line) => SyntaxErrorView::InvalidCommand(line@),
        }
    }
}

impl SyntaxErrorView {
    /// The message that reports the error.
    pub open spec fn message(self) -> Seq<char> {
        match self {
            SyntaxErrorView::MissingOperator => "syntax error: expected operator token"@,
            SyntaxErrorView::MissingSegment => "syntax error: expected more after \"push\""@,
            SyntaxErrorView::ExpectedConstant => "syntax error: expected \"constant\" after push"@,
            SyntaxErrorView::MissingConstant => "syntax error: expected constant after \"push constant\""@,
            SyntaxErrorView::InvalidConstant(e) => e.message(),
            SyntaxErrorView::InvalidOperator(word) => "synatx error: invalid operator: "@ + word,
            SyntaxErrorView::InvalidCommand(line) => "Invalid operator: "@ + line,
        }
    }
}

impl SyntaxError {
    /// The message that reports the error.
    pub fn to_string(&self) -> (text: String)
        ensures
            text@ == self@.message(),
    {
        match self {
            SyntaxError::MissingOperator => String::from_str(
                "syntax error: expected operator token",
            ),
            SyntaxError::MissingSegment => String::from_str(
                "syntax error: expected more after \"push\"",
            ),
            SyntaxError::ExpectedConstant => String::from_str(
                "syntax error: expected \"constant\" after push",
            ),
            SyntaxError::MissingConstant => String::from_str(
                "syntax error: expected constant after \"push constant\"",
            ),
            SyntaxError::InvalidConstant(e) => e.to_string(),
            SyntaxError::InvalidOperator(word) => {
                let mut text = String::from_str("synatx error: invalid operator: ");
                text.append(word.as_str());
                text
            },
            SyntaxError::InvalidCommand(line) => {
                let mut text = String::from_str("Invalid operator: ");
                text.append(line.as_str());
                text
            },
        }
    }
}

/// A line of the input could not be had as text.
#[derive(Debug, Clone, Copy, PartialEq, Eq, Structural)]
pub struct ConversionError {}

impl ConversionError {
    /// The message that reports the error.
    pub open spec fn message(self) -> Seq<char> {
        "failed to convert input iterable to string"@
    }

    /// The message that reports the error.
    pub fn to_string(&self) -> (text: String)
        ensures
            text@ == self.message(),
    {
        String::from_str("failed to convert input iterable to string")
    }
}

} // verus!
