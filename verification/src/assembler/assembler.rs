//! The two passes put together: from the lines of a program to its words.

use crate::assembler::error::{AssemblyError, AssemblyErrorView};
use crate::assembler::parser::{encode, first_pass, resolve_line, CommandType, Parser};
use crate::assembler::symbols::Symbols;
use vstd::prelude::*;

verus! {

/// How far the second pass has come: the symbol table, the number of lines
/// read, the words written, and the error that stopped it, if one did.
pub struct Trace {
    pub symbols: Symbols,
    pub consumed: nat,
    pub output: Seq<Seq<char>>,
    pub error: Option<AssemblyErrorView>,
}

impl Trace {
    /// What the second pass hands back: the words, or the error that
    /// stopped it.
    pub open spec fn result(self) -> Result<Seq<Seq<char>>, AssemblyErrorView> {
        match self.error {
            Some(e) => Err(e),
            None => Ok(self.output),
        }
    }
}

/// The second pass over one line. The line is parsed and resolved; an
/// address or computation instruction is written as a word, a label
/// definition or an empty line writes nothing. The first failure is kept
/// as the error. The line counts as read in each case, and a variable that
/// resolving made stays in the table even if the word cannot be written.
pub open spec fn emit_line(before: Trace, raw: Seq<char>) -> Trace {
    match resolve_line(before.symbols, raw) {
        Err(e) => Trace { consumed: before.consumed + 1, error: Some(e), ..before },
        Ok((symbols, instruction)) => if instruction.is_executable() {
            match encode(instruction) {
                Ok(word) => Trace {
                    symbols,
                    consumed: before.consumed + 1,
                    output: before.output.push(word),
                    error: None,
                },
                Err(e) => Trace {
                    symbols,
                    consumed: before.consumed + 1,
                    output: before.output,
                    error: Some(e),
                },
            }
        } else {
            Trace { symbols, consumed: before.consumed + 1, ..before }
        },
    }
}

/// The second pass over `lines`, begun with the table `symbols`: it goes
/// through the lines in order and stops at the first error.
pub open spec fn second_pass(lines: Seq<Seq<char>>, symbols: Symbols) -> Trace
    decreases lines.len(),
{
    if lines.len() == 0 {
        Trace { symbols, consumed: 0, output: Seq::empty(), error: None }
    } else {
        let before = second_pass(lines.drop_last(), symbols);
        if before.error is Some {
            before
        } else {
            emit_line(before, lines.last())
        }
    }
}

/// The words of a program, one for each address or computation instruction
/// in the order of the lines, or the first error of the first pass or,
/// where that has none, of the second.
pub open spec fn assemble_lines(lines: Seq<Seq<char>>) -> Result<
    Seq<Seq<char>>,
    AssemblyErrorView,
> {
    match first_pass(lines) {
        Err(e) => Err(e),
        Ok(scan) => second_pass(lines, scan.symbols).result(),
    }
}

/// Once the second pass has stopped on some of the first lines of a
/// program, it has stopped on the whole program in the same way.
pub proof fn lemma_second_pass_error(lines: Seq<Seq<char>>, symbols: Symbols, n: int)
    requires
        0 <= n <= lines.len(),
        second_pass(lines.take(n), symbols).error is Some,
    ensures
        second_pass(lines, symbols) == second_pass(lines.take(n), symbols),
    decreases lines.len() - n,
{
    if n == lines.len() {
        assert(lines.take(n) =~= lines);
    } else {
        assert(lines.drop_last().take(n) =~= lines.take(n));
        lemma_second_pass_error(lines.drop_last(), symbols, n);
    }
}

/// Assembles one program.
pub struct Assembler {
    parser: Parser,
}

impl Assembler {
    /// The lines that `assemble` has yet to read.
    pub closed spec fn pending(&self) -> Seq<Seq<char>> {
        self.parser.pending()
    }

    /// What the symbol table holds.
    pub closed spec fn symbols(&self) -> Symbols {
        self.parser.symbols()
    }

    /// Makes the first pass over the lines of a program. The assembler that
    /// comes back holds the symbol table after that pass and has all lines
    /// yet to read.
    pub fn new(lines: Vec<String>) -> (r: Result<Assembler, AssemblyError>)
        ensures
            match first_pass(lines.deep_view()) {
                Ok(scan) => r matches Ok(assembler) && assembler.pending() == lines.deep_view()
                    && assembler.symbols() == scan.symbols,
                Err(e) => r matches Err(x) && x@ == e,
            },
    {
        match Parser::new(lines) {
            Ok(parser) => Ok(Assembler { parser }),
            Err(e) => Err(e),
        }
    }

    /// Makes the second pass over the lines that are left and returns the
    /// words of their instructions, in order, or the first error. With no
    /// error all lines are read after the call; with one, the lines up to
    /// the one that failed.
    pub fn assemble(&mut self) -> (r: Result<Vec<String>, AssemblyError>)
        ensures
            ({
                let trace = second_pass(old(self).pending(), old(self).symbols());
                &&& final(self).pending() == old(self).pending().skip(trace.consumed as int)
                &&& final(self).symbols() == trace.symbols
                &&& match trace.result() {
                    Ok(output) => r matches Ok(words) && words.deep_view() == output,
                    Err(e) => r matches Err(x) && x@ == e,
                }
            }),
    {
        let mut output: Vec<String> = Vec::new();
        let ghost all = self.pending();
        let ghost start = self.symbols();
        let ghost mut n: int = 0;
        proof {
            assert(all.take(0) =~= Seq::<Seq<char>>::empty());
            assert(all.skip(0) =~= all);
            assert(output.deep_view() =~= Seq::<Seq<char>>::empty());
        }
        loop
            invariant
                0 <= n <= all.len(),
                all == old(self).pending(),
                start == old(self).symbols(),
                self.pending() == all.skip(n),
                second_pass(all.take(n), start) == (Trace {
                    symbols: self.symbols(),
                    consumed: n as nat,
                    output: output.deep_view(),
                    error: None,
                }),
            ensures
                n == all.len(),
            decreases all.len() - n,
        {
            let ghost before = second_pass(all.take(n), start);
            let ghost words = output.deep_view();
            proof {
                if n < all.len() {
                    assert(all.take(n + 1).drop_last() =~= all.take(n));
                    assert(all.take(n + 1).last() == all.skip(n)[0]);
                    assert(all.skip(n).drop_first() =~= all.skip(n + 1));
                }
            }
            let command = match self.parser.next() {
                None => { break ; },
                Some(Err(e)) => {
                    proof {
                        lemma_second_pass_error(all, start, n + 1);
                    }
                    return Err(e);
                },
                Some(Ok(command)) => command,
            };
            match command.kind {
                CommandType::Empty | CommandType::L { symbol: _ } => {},
                CommandType::A { symbol: _ } | CommandType::C { dest: _, comp: _, jump: _ } => {
                    match command.to_code() {
                        Ok(word) => {
                            output.push(word);
                            assert(output.deep_view() =~= words.push(word@));
                        },
                        Err(e) => {
                            proof {
                                lemma_second_pass_error(all, start, n + 1);
                            }
                            return Err(e);
                        },
                    }
                },
            }
            proof {
                n = n + 1;
            }
        }
        proof {
            assert(all.take(n) =~= all);
        }
        Ok(output)
    }
}

} // verus!
