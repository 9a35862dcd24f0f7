//! The commands of the stack machine, how a line of text names one, and the
//! symbolic machine language that carries each of them out.

use crate::text::chars::{same_chars, string_from, to_chars};
use crate::text::decimal::{decimal, lemma_decimal_injective, parse_decimal, parse_u32, push_decimal};
use crate::text::words::{join_lines, join_strings, take_word, words, words_from};
use crate::translator::error::{SyntaxError, SyntaxErrorView};
use vstd::prelude::*;
use vstd::string::StringExecFns;

verus! {

/// One command of the stack machine.
#[derive(Debug, Clone, Copy, PartialEq, Eq, Structural)]
pub enum Command {
    Add,
    Sub,
    Neg,
    Eq,
    Gt,
    Lt,
    And,
    Or,
    Not,
    Push(u32),
}

/// The lines that push the constant `value` onto the stack.
pub open spec fn push_lines(value: u32) -> Seq<Seq<char>> {
    seq![
        "@"@ + decimal(value as nat),
        "D=A"@,
        "@SP"@,
        "A=M"@,
        "M=D"@,
        "@SP"@,
        "M=M+1"@,
    ]
}

/// The lines that replace the two topmost values of the stack, `x` below
/// `y`, by one value; `operation` is the instruction that computes it into
/// the cell of `x` while `D` holds `y`.
pub open spec fn binary_lines(operation: Seq<char>) -> Seq<Seq<char>> {
    seq![
        "@SP"@,
        "M=M-1"@,
        "A=M"@,
        "D=M"@,
        "@SP"@,
        "M=M-1"@,
        "A=M"@,
        operation,
        "@SP"@,
        "M=M+1"@,
    ]
}

/// The lines that replace the topmost value of the stack in place;
/// `operation` is the instruction that does so.
pub open spec fn unary_lines(operation: Seq<char>) -> Seq<Seq<char>> {
    seq!["@SP"@, "M=M-1"@, "A=M"@, operation, "@SP"@, "M=M+1"@]
}

/// The name of a label: `name`, a colon and the decimal numeral of `id`.
pub open spec fn label(name: Seq<char>, id: nat) -> Seq<char> {
    name + ":"@ + decimal(id)
}

/// The lines that replace the two topmost values of the stack, `x` below
/// `y`, by true (-1) or false (0). `jump` is the instruction that jumps when
/// `x - y` in `D` makes the comparison true, and `name` begins the label it
/// jumps to. Both labels end in `id`, so that the lines of two comparisons
/// with different `id` share no label.
pub open spec fn comparison_lines(name: Seq<char>, jump: Seq<char>, id: nat) -> Seq<Seq<char>> {
    seq![
        "@SP"@,
        "M=M-1"@,
        "A=M"@,
        "D=M"@,
        "@SP"@,
        "M=M-1"@,
        "A=M"@,
        "D=M-D"@,
        "@"@ + label(name, id),
        jump,
        "@0"@,
        "D=A"@,
        "@SP"@,
        "A=M"@,
        "M=D"@,
        "@"@ + label("END"@, id),
        "0;JMP"@,
        "("@ + label(name, id) + ")"@,
        "@1"@,
        "D=-A"@,
        "@SP"@,
        "A=M"@,
        "M=D"@,
        "("@ + label("END"@, id) + ")"@,
        "@SP"@,
        "M=M+1"@,
    ]
}

impl Command {
    /// The lines of symbolic machine language that carry the command out.
    pub open spec fn asm_lines(self, id: nat) -> Seq<Seq<char>> {
        match self {
            Command::Push(value) => push_lines(value),
            Command::Add => binary_lines("M=M+D"@),
            Command::Sub => binary_lines("M=M-D"@),
            Command::Neg => unary_lines("M=-M"@),
            Command::Eq => comparison_lines("EQUAL"@, "D;JEQ"@, id),
            Command::Gt => comparison_lines("GREATERTHAN"@, "D;JGT"@, id),
            Command::Lt => comparison_lines("LESSTHAN"@, "D;JLT"@, id),
            Command::And => binary_lines("M=M&D"@),
            Command::Or => binary_lines("M=M|D"@),
            Command::Not => unary_lines("M=!M"@),
        }
    }

    /// The text of symbolic machine language that carries the command out:
    /// its lines, joined by line feeds.
    pub open spec fn asm_text(self, id: nat) -> Seq<char> {
        join_lines(self.asm_lines(id))
    }

    /// Writes the symbolic machine language that carries the command out.
    /// The labels of a comparison end in `id`.
    pub fn to_asm(&self, id: usize) -> (text: String)
        ensures
            text@ == self.asm_text(id as nat),
    {
        let lines = match self {
            Command::Push(value) => write_push(*value),
            Command::Add => write_binary("M=M+D"),
            Command::Sub => write_binary("M=M-D"),
            Command::Neg => write_unary("M=-M"),
            Command::Eq => write_comparison("EQUAL", "D;JEQ", id),
            Command::Gt => write_comparison("GREATERTHAN", "D;JGT", id),
            Command::Lt => write_comparison("LESSTHAN", "D;JLT", id),
            Command::And => write_binary("M=M&D"),
            Command::Or => write_binary("M=M|D"),
            Command::Not => write_unary("M=!M"),
        };
        join_strings(&lines)
    }
}

/// Appends a line with the given text.
fn push_line(lines: &mut Vec<String>, text: &str)
    ensures
        final(lines).deep_view() == old(lines).deep_view().push(text@),
{
    lines.push(String::from_str(text));
    assert(lines.deep_view() =~= old(lines).deep_view().push(text@));
}

/// Appends a line made of `before`, the label of `name` and `id`, and `after`.
fn push_label_line(lines: &mut Vec<String>, before: &str, name: &str, id: usize, after: &str)
    ensures
        final(lines).deep_view() == old(lines).deep_view().push(
            before@ + label(name@, id as nat) + after@,
        ),
{
    let mut line = String::from_str(before);
    line.append(name);
    line.append(":");
    push_decimal(&mut line, id as u64);
    line.append(after);
    assert(line@ =~= before@ + label(name@, id as nat) + after@);
    lines.push(line);
    assert(lines.deep_view() =~= old(lines).deep_view().push(
        before@ + label(name@, id as nat) + after@,
    ));
}

fn write_push(value: u32) -> (lines: Vec<String>)
    ensures
        lines.deep_view() == push_lines(value),
{
    let mut lines: Vec<String> = Vec::new();
    let mut first = String::from_str("@");
    push_decimal(&mut first, value as u64);
    lines.push(first);
    assert(lines.deep_view() =~= seq!["@"@ + decimal(value as nat)]);
    push_line(&mut lines, "D=A");
    push_line(&mut lines, "@SP");
    push_line(&mut lines, "A=M");
    push_line(&mut lines, "M=D");
    push_line(&mut lines, "@SP");
    push_line(&mut lines, "M=M+1");
    assert(lines.deep_view() =~= push_lines(value));
    lines
}

fn write_binary(operation: &str) -> (lines: Vec<String>)
    ensures
        lines.deep_view() == binary_lines(operation@),
{
    let mut lines: Vec<String> = Vec::new();
    assert(lines.deep_view() =~= Seq::<Seq<char>>::empty());
    push_line(&mut lines, "@SP");
    push_line(&mut lines, "M=M-1");
    push_line(&mut lines, "A=M");
    push_line(&mut lines, "D=M");
    push_line(&mut lines, "@SP");
    push_line(&mut lines, "M=M-1");
    push_line(&mut lines, "A=M");
    push_line(&mut lines, operation);
    push_line(&mut lines, "@SP");
    push_line(&mut lines, "M=M+1");
    assert(lines.deep_view() =~= binary_lines(operation@));
    lines
}

fn write_unary(operation: &str) -> (lines: Vec<String>)
    ensures
        lines.deep_view() == unary_lines(operation@),
{
    let mut lines: Vec<String> = Vec::new();
    assert(lines.deep_view() =~= Seq::<Seq<char>>::empty());
    push_line(&mut lines, "@SP");
    push_line(&mut lines, "M=M-1");
    push_line(&mut lines, "A=M");
    push_line(&mut lines, operation);
    push_line(&mut lines, "@SP");
    push_line(&mut lines, "M=M+1");
    assert(lines.deep_view() =~= unary_lines(operation@));
    lines
}

fn write_comparison(name: &str, jump: &str, id: usize) -> (lines: Vec<String>)
    ensures
        lines.deep_view() == comparison_lines(name@, jump@, id as nat),
{
    let mut lines: Vec<String> = Vec::new();
    assert(lines.deep_view() =~= Seq::<Seq<char>>::empty());
    push_line(&mut lines, "@SP");
    push_line(&mut lines, "M=M-1");
    push_line(&mut lines, "A=M");
    push_line(&mut lines, "D=M");
    push_line(&mut lines, "@SP");
    push_line(&mut lines, "M=M-1");
    push_line(&mut lines, "A=M");
    push_line(&mut lines, "D=M-D");
    push_label_line(&mut lines, "@", name, id, "");
    push_line(&mut lines, jump);
    push_line(&mut lines, "@0");
    push_line(&mut lines, "D=A");
    push_line(&mut lines, "@SP");
    push_line(&mut lines, "A=M");
    push_line(&mut lines, "M=D");
    push_label_line(&mut lines, "@", "END", id, "");
    push_line(&mut lines, "0;JMP");
    push_label_line(&mut lines, "(", name, id, ")");
    push_line(&mut lines, "@1");
    push_line(&mut lines, "D=-A");
    push_line(&mut lines, "@SP");
    push_line(&mut lines, "A=M");
    push_line(&mut lines, "M=D");
    push_label_line(&mut lines, "(", "END", id, ")");
    push_line(&mut lines, "@SP");
    push_line(&mut lines, "M=M+1");
    proof {
        reveal_strlit("");
        assert("@"@ + label(name@, id as nat) + ""@ =~= "@"@ + label(name@, id as nat));
        assert("@"@ + label("END"@, id as nat) + ""@ =~= "@"@ + label("END"@, id as nat));
    }
    assert(lines.deep_view() =~= comparison_lines(name@, jump@, id as nat));
    lines
}

/// What the words after `push` say: `constant` and a decimal number of 32
/// bits are needed; further words are not looked at.
pub open spec fn push_operand(rest: Seq<Seq<char>>) -> Result<u32, SyntaxErrorView> {
    if rest.len() == 0 {
        Err(SyntaxErrorView::MissingSegment)
    } else if rest[0] != "constant"@ {
        Err(SyntaxErrorView::ExpectedConstant)
    } else if rest.len() == 1 {
        Err(SyntaxErrorView::MissingConstant)
    } else {
        match parse_decimal(rest[1]) {
            Ok(value) => Ok(value),
            Err(e) => Err(SyntaxErrorView::InvalidConstant(e)),
        }
    }
}

/// The command that a line of text names. The first word decides; only
/// `push` reads further words.
pub open spec fn parse_command(line: Seq<char>) -> Result<Command, SyntaxErrorView> {
    let w = words(line);
    if w.len() == 0 {
        Err(SyntaxErrorView::MissingOperator)
    } else if w[0] == "add"@ {
        Ok(Command::Add)
    } else if w[0] == "sub"@ {
        Ok(Command::Sub)
    } else if w[0] == "neg"@ {
        Ok(Command::Neg)
    } else if w[0] == "eq"@ {
        Ok(Command::Eq)
    } else if w[0] == "gt"@ {
        Ok(Command::Gt)
    } else if w[0] == "lt"@ {
        Ok(Command::Lt)
    } else if w[0] == "and"@ {
        Ok(Command::And)
    } else if w[0] == "or"@ {
        Ok(Command::Or)
    } else if w[0] == "not"@ {
        Ok(Command::Not)
    } else if w[0] == "push"@ {
        match push_operand(w.skip(1)) {
            Ok(value) => Ok(Command::Push(value)),
            Err(e) => Err(e),
        }
    } else {
        Err(SyntaxErrorView::InvalidOperator(w[0]))
    }
}

/// Reads the words that follow `push`, from index `from` of the line on.
pub fn read_push_operand(line: &Vec<char>, from: usize) -> (r: Result<u32, SyntaxError>)
    requires
        from <= line.len(),
    ensures
        match push_operand(words_from(line@, from as int)) {
            Ok(value) => r == Ok::<u32, SyntaxError>(value),
            Err(e) => r matches Err(x) && x@ == e,
        },
{
    let (segment, end) = match take_word(line, from) {
        Some(found) => found,
        None => { return Err(SyntaxError::MissingSegment); },
    };
    if !same_chars(&segment, "constant") {
        return Err(SyntaxError::ExpectedConstant);
    }
    let (number, _) = match take_word(line, end) {
        Some(found) => found,
        None => { return Err(SyntaxError::MissingConstant); },
    };
    match parse_u32(&number) {
        Ok(value) => Ok(value),
        Err(e) => Err(SyntaxError::InvalidConstant(e)),
    }
}

impl Command {
    /// Reads a line of text as a command.
    pub fn try_from(value: &str) -> (r: Result<Command, SyntaxError>)
        ensures
            match parse_command(value@) {
                Ok(command) => r == Ok::<Command, SyntaxError>(command),
                Err(e) => r matches Err(x) && x@ == e,
            },
    {
        let line = to_chars(value);
        let (operator, end) = match take_word(&line, 0) {
            Some(found) => found,
            None => { return Err(SyntaxError::MissingOperator); },
        };
        if same_chars(&operator, "add") {
            Ok(Command::Add)
        } else if same_chars(&operator, "sub") {
            Ok(Command::Sub)
        } else if same_chars(&operator, "neg") {
            Ok(Command::Neg)
        } else if same_chars(&operator, "eq") {
            Ok(Command::Eq)
        } else if same_chars(&operator, "gt") {
            Ok(Command::Gt)
        } else if same_chars(&operator, "lt") {
            Ok(Command::Lt)
        } else if same_chars(&operator, "and") {
            Ok(Command::And)
        } else if same_chars(&operator, "or") {
            Ok(Command::Or)
        } else if same_chars(&operator, "not") {
            Ok(Command::Not)
        } else if same_chars(&operator, "push") {
            match read_push_operand(&line, end) {
                Ok(value) => Ok(Command::Push(value)),
                Err(e) => Err(e),
            }
        } else {
            assert(operator@.subrange(0, operator@.len() as int) =~= operator@);
            Err(SyntaxError::InvalidOperator(string_from(&operator, 0, operator.len())))
        }
    }
}

/// The names that the labels of comparisons begin with.
pub open spec fn is_label_name(name: Seq<char>) -> bool {
    ||| name == "EQUAL"@
    ||| name == "GREATERTHAN"@
    ||| name == "LESSTHAN"@
    ||| name == "END"@
}

/// Labels made of names without a colon and of different numbers are
/// different labels.
pub proof fn lemma_labels_differ(name: Seq<char>, id: nat, other_name: Seq<char>, other: nat)
    requires
        id != other,
        forall|i: int| 0 <= i < name.len() ==> name[i] != ':',
        forall|i: int| 0 <= i < other_name.len() ==> other_name[i] != ':',
    ensures
        label(name, id) != label(other_name, other),
{
    reveal_strlit(":");
    let one = label(name, id);
    let two = label(other_name, other);
    if one == two {
        assert(one[name.len() as int] == ':');
        assert(two[other_name.len() as int] == ':');
        if name.len() < other_name.len() {
            assert(two[name.len() as int] == other_name[name.len() as int]);
        }
        if other_name.len() < name.len() {
            assert(one[other_name.len() as int] == name[other_name.len() as int]);
        }
        let skipped = name.len() + 1;
        assert(one.skip(skipped as int) =~= decimal(id));
        assert(two.skip(skipped as int) =~= decimal(other));
        lemma_decimal_injective(id, other);
    }
}

/// The labels of different comparisons never collide: whichever two of the
/// names that labels begin with are taken, alike or not, labels that end in
/// different numbers are different labels. No comparison written with one
/// `id` can jump into one written with another.
pub proof fn lemma_comparison_labels_differ(
    name: Seq<char>,
    id: nat,
    other_name: Seq<char>,
    other: nat,
)
    requires
        is_label_name(name),
        is_label_name(other_name),
        id != other,
    ensures
        label(name, id) != label(other_name, other),
{
    reveal_strlit("EQUAL");
    reveal_strlit("GREATERTHAN");
    reveal_strlit("LESSTHAN");
    reveal_strlit("END");
    lemma_labels_differ(name, id, other_name, other);
}

} // verus!
