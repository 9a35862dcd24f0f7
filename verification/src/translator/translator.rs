//! A program of stack-machine code: its lines, cleaned of comments and
//! blanks, and the commands they name.

use crate::text::chars::{string_from, to_chars};
use crate::text::search::{find_comment, without_comment};
use crate::text::words::{join_lines, join_strings, trim, trim_span};
use crate::translator::command;
use crate::translator::command::parse_command;
use crate::translator::error::{ConversionError, SyntaxError, SyntaxErrorView};
use crate::translator::parser::{parse_kind, Command, CommandType, Parser};
use vstd::prelude::*;

verus! {

/// What is left of a line once its comment, from the first comment marker
/// on, and the white space at both ends are taken away.
pub open spec fn clean(line: Seq<char>) -> Seq<char> {
    trim(without_comment(line))
}

/// The text of each line; of a line that could not be had as text, any.
pub open spec fn texts(input: Seq<Option<String>>) -> Seq<Seq<char>> {
    input.map_values(|line: Option<String>| line->0@)
}

/// The lines of a program that count: each line is cleaned, and those of
/// which nothing is left are dropped.
pub open spec fn clean_lines(lines: Seq<Seq<char>>) -> Seq<Seq<char>> {
    lines.map_values(|line: Seq<char>| clean(line)).filter(|line: Seq<char>| line.len() > 0)
}

/// The kinds of the commands that the lines name, in order, or the error of
/// the first line that names none.
pub open spec fn parse_lines(lines: Seq<Seq<char>>) -> Result<Seq<CommandType>, SyntaxErrorView>
    decreases lines.len(),
{
    if lines.len() == 0 {
        Ok(Seq::empty())
    } else {
        match parse_lines(lines.drop_last()) {
            Err(e) => Err(e),
            Ok(kinds) => match parse_kind(lines.last()) {
                Ok(kind) => Ok(kinds.push(kind)),
                Err(e) => Err(e),
            },
        }
    }
}

/// The text written for each line, in order, or the error of the first
/// line that names no command. The labels of a comparison end in the index
/// of its line, so that no two lines share a label.
pub open spec fn translate_lines(lines: Seq<Seq<char>>) -> Result<Seq<Seq<char>>, SyntaxErrorView>
    decreases lines.len(),
{
    if lines.len() == 0 {
        Ok(Seq::empty())
    } else {
        match translate_lines(lines.drop_last()) {
            Err(e) => Err(e),
            Ok(blocks) => match parse_command(lines.last()) {
                Ok(command) => Ok(blocks.push(command.asm_text((lines.len() - 1) as nat))),
                Err(e) => Err(e),
            },
        }
    }
}

/// Once some of the first lines cannot be written, neither can all the
/// lines, for the same reason.
pub proof fn lemma_translate_lines_error(lines: Seq<Seq<char>>, n: int)
    requires
        0 <= n <= lines.len(),
        translate_lines(lines.take(n)) is Err,
    ensures
        translate_lines(lines) == translate_lines(lines.take(n)),
    decreases lines.len() - n,
{
    if n == lines.len() {
        assert(lines.take(n) =~= lines);
    } else {
        assert(lines.drop_last().take(n) =~= lines.take(n));
        lemma_translate_lines_error(lines.drop_last(), n);
    }
}

/// Once some of the first lines fail to parse, all the lines fail with the
/// same error.
pub proof fn lemma_parse_lines_error(lines: Seq<Seq<char>>, n: int)
    requires
        0 <= n <= lines.len(),
        parse_lines(lines.take(n)) is Err,
    ensures
        parse_lines(lines) == parse_lines(lines.take(n)),
    decreases lines.len() - n,
{
    if n == lines.len() {
        assert(lines.take(n) =~= lines);
    } else {
        assert(lines.drop_last().take(n) =~= lines.take(n));
        lemma_parse_lines_error(lines.drop_last(), n);
    }
}

/// The line without its comment and without white space at its ends.
pub fn clean_line(line: &str) -> (cleaned: String)
    ensures
        cleaned@ == clean(line@),
{
    let mut chars = to_chars(line);
    let cut = find_comment(&chars);
    chars.truncate(cut);
    let (start, end) = trim_span(&chars);
    string_from(&chars, start, end)
}

/// A program of stack-machine code.
pub struct Translator {
    lines: Vec<String>,
    parser: Parser,
}

impl Translator {
    /// The lines of the program that count.
    pub closed spec fn text(&self) -> Seq<Seq<char>> {
        self.lines.deep_view()
    }

    /// Takes the lines of a program; `None` stands for a line that could
    /// not be had as text, and one such line fails the whole. Comments and
    /// the white space around each line are taken away, and lines of which
    /// nothing is left are dropped.
    pub fn new(input: Vec<Option<String>>) -> (r: Result<Translator, ConversionError>)
        ensures
            match r {
                Ok(translator) => {
                    &&& forall|i: int| 0 <= i < input.len() ==> input[i] is Some
                    &&& translator.text() == clean_lines(texts(input@))
                },
                Err(_) => exists|i: int| 0 <= i < input.len() && input[i] is None,
            },
    {
        let mut lines: Vec<String> = Vec::new();
        let mut i: usize = 0;
        let ghost all = texts(input@);
        proof {
            reveal(Seq::filter);
            assert(all.take(0) =~= Seq::<Seq<char>>::empty());
            assert(all.take(0).map_values(|line: Seq<char>| clean(line)) =~= Seq::<
                Seq<char>,
            >::empty());
            assert(lines.deep_view() =~= Seq::<Seq<char>>::empty());
        }
        while i < input.len()
            invariant
                i <= input.len(),
                all == texts(input@),
                forall|j: int| 0 <= j < i ==> input[j] is Some,
                lines.deep_view() == clean_lines(all.take(i as int)),
            decreases input.len() - i,
        {
            match &input[i] {
                Some(line) => {
                    let cleaned = clean_line(line.as_str());
                    proof {
                        let before = all.take(i as int).map_values(|line: Seq<char>| clean(line));
                        assert(all.take(i + 1).map_values(|line: Seq<char>| clean(line))
                            =~= before.push(cleaned@));
                        before.lemma_filter_push(cleaned@, |line: Seq<char>| line.len() > 0);
                    }
                    if !cleaned.as_str().is_empty() {
                        let ghost kept = lines.deep_view();
                        lines.push(cleaned);
                        assert(lines.deep_view() =~= kept.push(cleaned@));
                    }
                },
                None => {
                    return Err(ConversionError {});
                },
            }
            i += 1;
        }
        assert(all.take(i as int) =~= all);
        Ok(Translator { lines, parser: Parser {} })
    }

    /// The lines of the program that count.
    pub fn lines(&self) -> (lines: &Vec<String>)
        ensures
            lines.deep_view() == self.text(),
    {
        &self.lines
    }

    /// Writes the program in symbolic machine language: the text of each
    /// command in the order of the lines, joined by line feeds, or the error
    /// of the first line that names no command.
    pub fn translate(&self) -> (r: Result<String, SyntaxError>)
        ensures
            match translate_lines(self.text()) {
                Ok(blocks) => r matches Ok(text) && text@ == join_lines(blocks),
                Err(e) => r matches Err(x) && x@ == e,
            },
    {
        let mut blocks: Vec<String> = Vec::new();
        let mut i: usize = 0;
        let ghost all = self.text();
        proof {
            assert(all.take(0) =~= Seq::<Seq<char>>::empty());
            assert(blocks.deep_view() =~= Seq::<Seq<char>>::empty());
        }
        while i < self.lines.len()
            invariant
                i <= self.lines.len(),
                all == self.lines.deep_view(),
                translate_lines(all.take(i as int)) == Ok::<Seq<Seq<char>>, SyntaxErrorView>(
                    blocks.deep_view(),
                ),
            decreases self.lines.len() - i,
        {
            proof {
                assert(all.take(i + 1).drop_last() =~= all.take(i as int));
                assert(all.take(i + 1).last() == self.lines[i as int]@);
            }
            match command::Command::try_from(self.lines[i].as_str()) {
                Ok(command) => {
                    let ghost before = blocks.deep_view();
                    let block = command.to_asm(i);
                    blocks.push(block);
                    assert(blocks.deep_view() =~= before.push(block@));
                },
                Err(e) => {
                    proof {
                        lemma_translate_lines_error(all, i + 1);
                    }
                    return Err(e);
                },
            }
            i += 1;
        }
        assert(all.take(i as int) =~= all);
        Ok(join_strings(&blocks))
    }

    /// The commands that the lines of the program name, in order, or the
    /// error of the first line that names none.
    pub fn output(&self) -> (r: Result<Vec<Command>, SyntaxError>)
        ensures
            match parse_lines(self.text()) {
                Ok(kinds) => r matches Ok(commands) && commands.deep_view() == kinds,
                Err(e) => r matches Err(x) && x@ == e,
            },
    {
        let mut commands: Vec<Command> = Vec::new();
        let mut i: usize = 0;
        let ghost all = self.text();
        proof {
            assert(all.take(0) =~= Seq::<Seq<char>>::empty());
            assert(commands.deep_view() =~= Seq::<CommandType>::empty());
        }
        while i < self.lines.len()
            invariant
                i <= self.lines.len(),
                all == self.lines.deep_view(),
                parse_lines(all.take(i as int)) == Ok::<Seq<CommandType>, SyntaxErrorView>(
                    commands.deep_view(),
                ),
            decreases self.lines.len() - i,
        {
            proof {
                assert(all.take(i + 1).drop_last() =~= all.take(i as int));
                assert(all.take(i + 1).last() == self.lines[i as int]@);
            }
            match Command::try_from(self.lines[i].as_str()) {
                Ok(command) => {
                    let ghost before = commands.deep_view();
                    commands.push(command);
                    assert(commands.deep_view() =~= before.push(command@));
                },
                Err(e) => {
                    proof {
                        lemma_parse_lines_error(all, i + 1);
                    }
                    return Err(e);
                },
            }
            i += 1;
        }
        assert(all.take(i as int) =~= all);
        Ok(commands)
    }
}

} // verus!
