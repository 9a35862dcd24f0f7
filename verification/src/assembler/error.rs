//! What can go wrong while a program is assembled.

use vstd::prelude::*;
use vstd::string::StringExecFns;

verus! {

/// The three fields of a computation instruction.
#[derive(Debug, Clone, Copy, PartialEq, Eq, Structural)]
pub enum Field {
    Dest,
    Comp,
    Jump,
}

impl Field {
    /// The name of the field.
    pub open spec fn name(self) -> Seq<char> {
        match self {
            Field::Dest => "dest"@,
            Field::Comp => "comp"@,
            Field::Jump => "jump"@,
        }
    }
}

/// Why a program cannot be assembled.
#[derive(Debug)]
pub enum AssemblyError {
    /// The line, kept here as it was read, has the shape of no instruction.
    Syntax { line: String },
    /// The mnemonic is not in the table of its field.
    Encoding { field: Field, mnemonic: String },
    /// The address that the symbol stands for does not fit its width.
    Overflow { symbol: String },
    /// The symbol of an address instruction is no numeral: no address was
    /// put in its place before the instruction was to be written as a word.
    Unresolved { symbol: String },
}

/// An `AssemblyError` with each text as its sequence of characters.
pub enum AssemblyErrorView {
    Syntax { line: Seq<char> },
    Encoding { field: Field, mnemonic: Seq<char> },
    Overflow { symbol: Seq<char> },
    Unresolved { symbol: Seq<char> },
}

impl View for AssemblyError {
    type V = AssemblyErrorView;

    open spec fn view(&self) -> AssemblyErrorView {
        match self {
            AssemblyError::Syntax { line } => AssemblyErrorView::Syntax { line: line@ },
            AssemblyError::Encoding { field, mnemonic } => AssemblyErrorView::Encoding {
                field: *field,
                mnemonic: mnemonic@,
            },
            AssemblyError::Overflow { symbol } => AssemblyErrorView::Overflow { symbol: symbol@ },
            AssemblyError::Unresolved { symbol } => AssemblyErrorView::Unresolved {
                symbol: symbol@,
            },
        }
    }
}

impl AssemblyErrorView {
    /// The message that reports the error.
    pub open spec fn message(self) -> Seq<char> {
        match self {
            AssemblyErrorView::Syntax { line } => "syntax error: \""@ + line
                + "\" could not be parsed"@,
            AssemblyErrorView::Encoding { field, mnemonic } => "encoding error: \""@ + mnemonic
                + "\" is no "@ + field.name() + " mnemonic"@,
            AssemblyErrorView::Overflow { symbol } => "overflow error: the address of \""@ + symbol
                + "\" is too large"@,
            AssemblyErrorView::Unresolved { symbol } => "unresolved symbol: \""@ + symbol
                + "\" is no address"@,
        }
    }
}

impl AssemblyError {
    /// The message that reports the error.
    pub fn to_string(&self) -> (text: String)
        ensures
            text@ == self@.message(),
    {
        match self {
            AssemblyError::Syntax { line } => {
                let mut text = String::from_str("syntax error: \"");
                text.append(line.as_str());
                text.append("\" could not be parsed");
                text
            },
            AssemblyError::Encoding { field, mnemonic } => {
                let mut text = String::from_str("encoding error: \"");
                text.append(mnemonic.as_str());
                text.append("\" is no ");
                match field {
                    Field::Dest => text.append("dest"),
                    Field::Comp => text.append("comp"),
                    Field::Jump => text.append("jump"),
                }
                text.append(" mnemonic");
                text
            },
            AssemblyError::Overflow { symbol } => {
                let mut text = String::from_str("overflow error: the address of \"");
                text.append(symbol.as_str());
                text.append("\" is too large");
                text
            },
            AssemblyError::Unresolved { symbol } => {
                let mut text = String::from_str("unresolved symbol: \"");
                text.append(symbol.as_str());
                text.append("\" is no address");
                text
            },
        }
    }
}

} // verus!
