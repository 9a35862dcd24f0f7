//! Instructions: how a line of text names one, and how an instruction is
//! written as a word of sixteen bits.

use crate::assembler::code::{
    comp_code, comp_lookup, dest_code, dest_lookup, jump_code, jump_lookup,
};
use crate::assembler::error::{AssemblyError, AssemblyErrorView, Field};
use crate::assembler::symbols::{initial_symbols, SymbolTable, Symbols};
use crate::text::chars::{is_whitespace, string_from, to_chars, white_space};
use crate::text::decimal::{
    decimal, decimal_string, is_numeral, numeral, parse_decimal, parse_u32,
};
use crate::text::search::{find_char, find_comment, position, without_comment};
use vstd::prelude::*;
use vstd::string::StringExecFns;

verus! {

/// The largest address that an address instruction can hold: fifteen bits.
pub const MAX_ADDRESS: u32 = 32767;

/// What a line of a program says.
pub enum CommandType {
    /// An address instruction: `@` and a symbol, which is a decimal number
    /// or a name.
    A { symbol: String },
    /// A computation instruction: `dest=comp;jump`, where `dest=` or `;jump`
    /// may be missing.
    C { dest: String, comp: String, jump: String },
    /// A label definition: a name in round brackets.
    L { symbol: String },
    /// Nothing: the line is blank or holds a comment only.
    Empty,
}

/// A `CommandType` with each text as its sequence of characters.
pub enum Instruction {
    A { symbol: Seq<char> },
    C { dest: Seq<char>, comp: Seq<char>, jump: Seq<char> },
    L { symbol: Seq<char> },
    Empty,
}

impl View for CommandType {
    type V = Instruction;

    open spec fn view(&self) -> Instruction {
        match self {
            CommandType::A { symbol } => Instruction::A { symbol: symbol@ },
            CommandType::C { dest, comp, jump } => Instruction::C {
                dest: dest@,
                comp: comp@,
                jump: jump@,
            },
            CommandType::L { symbol } => Instruction::L { symbol: symbol@ },
            CommandType::Empty => Instruction::Empty,
        }
    }
}

impl Instruction {
    /// Whether the instruction becomes a word of the program: address and
    /// computation instructions do, label definitions and empty lines do
    /// not.
    pub open spec fn is_executable(self) -> bool {
        self is A || self is C
    }
}

/// The text without any white space.
pub open spec fn without_spaces(s: Seq<char>) -> Seq<char> {
    s.filter(|c: char| !white_space(c))
}

/// The text of a line that counts: all white space is taken out first, and
/// what is left is cut off where the first comment marker begins.
pub open spec fn normalize(raw: Seq<char>) -> Seq<char> {
    without_comment(without_spaces(raw))
}

/// Splits a line at its separators into the fields of a computation
/// instruction. The first `=` ends the destination. With both separators,
/// the first `;` after that `=` ends the computation, and a line that has
/// its only `;` before the `=` has no such shape.
pub open spec fn split_fields(line: Seq<char>) -> Option<Instruction> {
    let assign = position(line, '=');
    let semicolon = position(line, ';');
    if assign < line.len() && semicolon < line.len() {
        let rest = line.skip(assign + 1);
        let end = position(rest, ';');
        if end < rest.len() {
            Some(
                Instruction::C {
                    dest: line.take(assign),
                    comp: rest.take(end),
                    jump: rest.skip(end + 1),
                },
            )
        } else {
            None
        }
    } else if assign < line.len() {
        Some(
            Instruction::C {
                dest: line.take(assign),
                comp: line.skip(assign + 1),
                jump: Seq::empty(),
            },
        )
    } else if semicolon < line.len() {
        Some(
            Instruction::C {
                dest: Seq::empty(),
                comp: line.take(semicolon),
                jump: line.skip(semicolon + 1),
            },
        )
    } else {
        None
    }
}

/// The instruction that a normalized line names, or nothing when the line
/// has the shape of no instruction.
pub open spec fn classify(line: Seq<char>) -> Option<Instruction> {
    if line.len() == 0 {
        Some(Instruction::Empty)
    } else if line[0] == '@' {
        Some(Instruction::A { symbol: line.skip(1) })
    } else if line[0] == '(' && line.last() == ')' {
        Some(Instruction::L { symbol: line.subrange(1, line.len() - 1) })
    } else {
        split_fields(line)
    }
}

/// The instruction that a line of the program names, or nothing when the
/// line has the shape of no instruction.
pub open spec fn parse_line(raw: Seq<char>) -> Option<Instruction> {
    classify(normalize(raw))
}

/// The `width` lowest bits of `value`, highest first, as characters `0`
/// and `1`.
pub open spec fn binary(value: nat, width: nat) -> Seq<char>
    decreases width,
{
    if width == 0 {
        Seq::empty()
    } else {
        binary(value / 2, (width - 1) as nat).push(
            if value % 2 == 1 {
                '1'
            } else {
                '0'
            },
        )
    }
}

/// The word of an address instruction: a `0` and the fifteen bits of the
/// address.
pub open spec fn address_word(address: nat) -> Seq<char> {
    seq!['0'] + binary(address, 15)
}

/// The word of an instruction. An address instruction needs a numeral as
/// its symbol: a name is an unresolved symbol, and a numeral above fifteen
/// bits, however large, an overflow. A computation instruction needs three
/// known mnemonics; of several unknown ones the error names the first in
/// the order computation, destination, jump. Label definitions and empty
/// lines have no word, and nothing is said of them here.
pub open spec fn encode(instruction: Instruction) -> Result<Seq<char>, AssemblyErrorView>
    recommends
        instruction.is_executable(),
{
    match instruction {
        Instruction::A { symbol } => if !numeral(symbol) {
            Err(AssemblyErrorView::Unresolved { symbol })
        } else {
            match parse_decimal(symbol) {
                Ok(address) if address <= MAX_ADDRESS => Ok(address_word(address as nat)),
                _ => Err(AssemblyErrorView::Overflow { symbol }),
            }
        },
        Instruction::C { dest, comp, jump } => if comp_code(comp) is None {
            Err(AssemblyErrorView::Encoding { field: Field::Comp, mnemonic: comp })
        } else if dest_code(dest) is None {
            Err(AssemblyErrorView::Encoding { field: Field::Dest, mnemonic: dest })
        } else if jump_code(jump) is None {
            Err(AssemblyErrorView::Encoding { field: Field::Jump, mnemonic: jump })
        } else {
            Ok("111"@ + comp_code(comp)->0 + dest_code(dest)->0 + jump_code(jump)->0)
        },
        _ => arbitrary(),
    }
}

/// Copies the characters of `raw` that are no white space.
pub fn strip_spaces(raw: &Vec<char>) -> (line: Vec<char>)
    ensures
        line@ == without_spaces(raw@),
{
    let mut line: Vec<char> = Vec::new();
    let mut i: usize = 0;
    proof {
        reveal(Seq::filter);
        assert(raw@.take(0) =~= Seq::<char>::empty());
    }
    while i < raw.len()
        invariant
            i <= raw.len(),
            line@ == without_spaces(raw@.take(i as int)),
        decreases raw.len() - i,
    {
        proof {
            assert(raw@.take(i + 1) =~= raw@.take(i as int).push(raw@[i as int]));
            raw@.take(i as int).lemma_filter_push(raw@[i as int], |c: char| !white_space(c));
        }
        if !is_whitespace(raw[i]) {
            line.push(raw[i]);
        }
        i += 1;
    }
    assert(raw@.take(i as int) =~= raw@);
    line
}

/// The characters of a line that count.
pub fn normalized(raw: &str) -> (line: Vec<char>)
    ensures
        line@ == normalize(raw@),
{
    let chars = to_chars(raw);
    let mut line = strip_spaces(&chars);
    let cut = find_comment(&line);
    line.truncate(cut);
    line
}

/// Appends the `width` lowest bits of `value`, highest first.
pub fn push_binary(word: &mut String, value: u32, width: u32)
    ensures
        final(word)@ == old(word)@ + binary(value as nat, width as nat),
    decreases width,
{
    if width == 0 {
        assert(old(word)@ + binary(value as nat, 0) =~= old(word)@);
    } else {
        push_binary(word, value / 2, width - 1);
        let bit: char = if value % 2 == 1 { '1' } else { '0' };
        word.push(bit);
        assert((old(word)@ + binary((value / 2) as nat, (width - 1) as nat)).push(bit) =~= old(
            word,
        )@ + binary(value as nat, width as nat));
    }
}

impl CommandType {
    /// Reads a line of the program. A line that has the shape of no
    /// instruction is a syntax error, which keeps the line as it was given.
    pub fn try_from(s: &str) -> (r: Result<CommandType, AssemblyError>)
        ensures
            match parse_line(s@) {
                Some(instruction) => r matches Ok(kind) && kind@ == instruction,
                None => r matches Err(e) && e@ == (AssemblyErrorView::Syntax { line: s@ }),
            },
    {
        let line = normalized(s);
        let n = line.len();
        if n == 0 {
            return Ok(CommandType::Empty);
        }
        if line[0] == '@' {
            assert(line@.subrange(1, n as int) =~= line@.skip(1));
            return Ok(CommandType::A { symbol: string_from(&line, 1, n) });
        }
        if line[0] == '(' && line[n - 1] == ')' {
            return Ok(CommandType::L { symbol: string_from(&line, 1, n - 1) });
        }
        assert(line@.skip(0) =~= line@);
        let assign = find_char(&line, 0, '=');
        let semicolon = find_char(&line, 0, ';');
        if assign < n && semicolon < n {
            let end = find_char(&line, assign + 1, ';');
            if end < n {
                let dest = string_from(&line, 0, assign);
                let comp = string_from(&line, assign + 1, end);
                let jump = string_from(&line, end + 1, n);
                proof {
                    let rest = line@.skip(assign + 1);
                    assert(position(rest, ';') == end - assign - 1);
                    assert(dest@ =~= line@.take(assign as int));
                    assert(comp@ =~= rest.take(end - assign - 1));
                    assert(jump@ =~= rest.skip(end - assign));
                }
                Ok(CommandType::C { dest, comp, jump })
            } else {
                Err(AssemblyError::Syntax { line: String::from_str(s) })
            }
        } else if assign < n {
            let dest = string_from(&line, 0, assign);
            let comp = string_from(&line, assign + 1, n);
            proof {
                assert(dest@ =~= line@.take(assign as int));
                assert(comp@ =~= line@.skip(assign + 1));
            }
            Ok(CommandType::C { dest, comp, jump: String::new() })
        } else if semicolon < n {
            let comp = string_from(&line, 0, semicolon);
            let jump = string_from(&line, semicolon + 1, n);
            proof {
                assert(comp@ =~= line@.take(semicolon as int));
                assert(jump@ =~= line@.skip(semicolon + 1));
            }
            Ok(CommandType::C { dest: String::new(), comp, jump })
        } else {
            Err(AssemblyError::Syntax { line: String::from_str(s) })
        }
    }
}

/// One parsed line of a program.
pub struct Command {
    pub kind: CommandType,
}

impl View for Command {
    type V = Instruction;

    open spec fn view(&self) -> Instruction {
        self.kind@
    }
}

impl Command {
    /// Reads a line of the program.
    pub fn new(s: &str) -> (r: Result<Command, AssemblyError>)
        ensures
            match parse_line(s@) {
                Some(instruction) => r matches Ok(command) && command@ == instruction,
                None => r matches Err(e) && e@ == (AssemblyErrorView::Syntax { line: s@ }),
            },
    {
        match CommandType::try_from(s) {
            Ok(kind) => Ok(Command { kind }),
            Err(e) => Err(e),
        }
    }

    /// Writes the instruction as a word of sixteen characters `0` or `1`.
    /// Only address and computation instructions have a word.
    pub fn to_code(&self) -> (r: Result<String, AssemblyError>)
        requires
            self@.is_executable(),
        ensures
            match encode(self@) {
                Ok(word) => r matches Ok(text) && text@ == word,
                Err(e) => r matches Err(x) && x@ == e,
            },
    {
        match &self.kind {
            CommandType::A { symbol } => {
                let digits = to_chars(symbol.as_str());
                if !is_numeral(&digits) {
                    return Err(AssemblyError::Unresolved { symbol: symbol.clone() });
                }
                match parse_u32(&digits) {
                    Ok(address) => {
                        if address <= MAX_ADDRESS {
                            let mut word = String::from_str("0");
                            push_binary(&mut word, address, 15);
                            proof {
                                reveal_strlit("0");
                                assert("0"@ =~= seq!['0']);
                            }
                            Ok(word)
                        } else {
                            Err(AssemblyError::Overflow { symbol: symbol.clone() })
                        }
                    },
                    Err(_) => Err(AssemblyError::Overflow { symbol: symbol.clone() }),
                }
            },
            CommandType::C { dest, comp, jump } => {
                let comp_bits = match comp_lookup(comp.as_str()) {
                    Ok(bits) => bits,
                    Err(e) => { return Err(e); },
                };
                let dest_bits = match dest_lookup(dest.as_str()) {
                    Ok(bits) => bits,
                    Err(e) => { return Err(e); },
                };
                let jump_bits = match jump_lookup(jump.as_str()) {
                    Ok(bits) => bits,
                    Err(e) => { return Err(e); },
                };
                let mut word = String::from_str("111");
                word.append(comp_bits);
                word.append(dest_bits);
                word.append(jump_bits);
                Ok(word)
            },
            _ => vstd::pervasive::unreached(),
        }
    }
}

/// What the first pass knows after some lines: the symbol table, and how
/// many instructions it has counted.
pub struct Scan {
    pub symbols: Symbols,
    pub count: nat,
}

/// The first pass over one line. A label definition binds its name to the
/// number of instructions counted so far, which is the address of the
/// instruction that follows it; a name bound before is bound anew. Address
/// and computation instructions are counted. A line with the shape of no
/// instruction is a syntax error; a label whose address does not fit in
/// 32 bits is an overflow error.
pub open spec fn scan_line(before: Scan, raw: Seq<char>) -> Result<Scan, AssemblyErrorView> {
    match parse_line(raw) {
        None => Err(AssemblyErrorView::Syntax { line: raw }),
        Some(Instruction::L { symbol }) => if before.count <= u32::MAX {
            Ok(Scan { symbols: before.symbols.bind(symbol, before.count as u32), ..before })
        } else {
            Err(AssemblyErrorView::Overflow { symbol })
        },
        Some(Instruction::Empty) => Ok(before),
        Some(_) => Ok(Scan { count: before.count + 1, ..before }),
    }
}

/// The first pass over a program: it begins with the predefined symbols
/// and no instruction counted, goes through the lines in order and stops at
/// the first error.
pub open spec fn first_pass(lines: Seq<Seq<char>>) -> Result<Scan, AssemblyErrorView>
    decreases lines.len(),
{
    if lines.len() == 0 {
        Ok(Scan { symbols: initial_symbols(), count: 0 })
    } else {
        match first_pass(lines.drop_last()) {
            Ok(before) => scan_line(before, lines.last()),
            Err(e) => Err(e),
        }
    }
}

/// An instruction with its symbol resolved, and the symbol table after
/// that. Only an address instruction is looked at. A symbol that is a
/// numeral is a literal: it is never looked up and never becomes a
/// variable. One that fits in 32 bits stays as it is; a larger one is an
/// overflow error. Any other symbol is a name: it is used as a variable and
/// gives way to the decimal numeral of its address. If the name is not bound
/// and no variable address is left, that is an overflow error. An error
/// leaves the table as it was.
pub open spec fn resolve(symbols: Symbols, instruction: Instruction) -> Result<
    (Symbols, Instruction),
    AssemblyErrorView,
> {
    match instruction {
        Instruction::A { symbol } => if numeral(symbol) {
            if parse_decimal(symbol) is Ok {
                Ok((symbols, instruction))
            } else {
                Err(AssemblyErrorView::Overflow { symbol })
            }
        } else if symbols.bound.contains_key(symbol) || symbols.next < u32::MAX {
            Ok(
                (
                    symbols.with_variable(symbol),
                    Instruction::A { symbol: decimal(symbols.variable_address(symbol) as nat) },
                ),
            )
        } else {
            Err(AssemblyErrorView::Overflow { symbol })
        },
        _ => Ok((symbols, instruction)),
    }
}

/// The second pass over one line: the line is parsed and its instruction
/// resolved.
pub open spec fn resolve_line(symbols: Symbols, raw: Seq<char>) -> Result<
    (Symbols, Instruction),
    AssemblyErrorView,
> {
    match parse_line(raw) {
        None => Err(AssemblyErrorView::Syntax { line: raw }),
        Some(instruction) => resolve(symbols, instruction),
    }
}

/// Reads a program twice. Making a parser is the first pass, which finds
/// the labels. Each call of `next` is a step of the second pass: it parses
/// the next line and resolves its symbol.
pub struct Parser {
    lines: Vec<String>,
    position: usize,
    symbol_table: SymbolTable,
}

impl Parser {
    /// The lines that `next` has not read yet.
    pub closed spec fn pending(&self) -> Seq<Seq<char>> {
        if self.position <= self.lines.len() {
            self.lines.deep_view().skip(self.position as int)
        } else {
            Seq::empty()
        }
    }

    /// What the symbol table holds.
    pub closed spec fn symbols(&self) -> Symbols {
        self.symbol_table@
    }

    /// The symbol table as it stands.
    pub fn symbol_table(&self) -> (table: &SymbolTable)
        ensures
            table@ == self.symbols(),
    {
        &self.symbol_table
    }

    /// Makes the first pass over `lines`. The parser that comes back holds
    /// the symbol table after that pass and has all lines yet to read.
    pub fn new(lines: Vec<String>) -> (r: Result<Parser, AssemblyError>)
        ensures
            match first_pass(lines.deep_view()) {
                Ok(scan) => r matches Ok(parser) && parser.pending() == lines.deep_view()
                    && parser.symbols() == scan.symbols,
                Err(e) => r matches Err(x) && x@ == e,
            },
    {
        let mut symbol_table = SymbolTable::new();
        let mut rom_addr: usize = 0;
        let mut i: usize = 0;
        let ghost all = lines.deep_view();
        assert(all.take(0) =~= Seq::<Seq<char>>::empty());
        while i < lines.len()
            invariant
                i <= lines.len(),
                rom_addr <= i,
                all == lines.deep_view(),
                first_pass(all.take(i as int)) == Ok::<Scan, AssemblyErrorView>(
                    Scan { symbols: symbol_table@, count: rom_addr as nat },
                ),
            decreases lines.len() - i,
        {
            proof {
                assert(all.take(i + 1).drop_last() =~= all.take(i as int));
                assert(all.take(i + 1).last() == lines[i as int]@);
            }
            let parsed = CommandType::try_from(lines[i].as_str());
            i += 1;
            match parsed {
                Ok(CommandType::L { symbol }) => {
                    if rom_addr > u32::MAX as usize {
                        proof {
                            lemma_first_pass_error(all, i as int);
                        }
                        return Err(AssemblyError::Overflow { symbol });
                    }
                    symbol_table.add_symbol(symbol.as_str(), Some(rom_addr as u32));
                },
                Ok(CommandType::Empty) => {},
                Ok(_) => {
                    rom_addr += 1;
                },
                Err(e) => {
                    proof {
                        lemma_first_pass_error(all, i as int);
                    }
                    return Err(e);
                },
            }
        }
        assert(all.take(i as int) =~= all);
        assert(lines.deep_view().skip(0) =~= lines.deep_view());
        Ok(Parser { lines, position: 0, symbol_table })
    }

    /// Reads the next line, if one is left, and resolves its symbol against
    /// the symbol table, which gets a new variable where the symbol is a
    /// name not yet bound. A symbol that is a numeral is never taken as a
    /// name. After an error the table is as it was; the line counts as read
    /// either way.
    pub fn next(&mut self) -> (r: Option<Result<Command, AssemblyError>>)
        ensures
            old(self).pending().len() == 0 ==> r is None && final(self).pending() == old(
                self,
            ).pending() && final(self).symbols() == old(self).symbols(),
            old(self).pending().len() > 0 ==> final(self).pending() == old(
                self,
            ).pending().drop_first() && match resolve_line(
                old(self).symbols(),
                old(self).pending()[0],
            ) {
                Ok((symbols, instruction)) => r matches Some(Ok(command)) && command@
                    == instruction && final(self).symbols() == symbols,
                Err(e) => r matches Some(Err(x)) && x@ == e && final(self).symbols() == old(
                    self,
                ).symbols(),
            },
    {
        if self.position >= self.lines.len() {
            return None;
        }
        let parsed = CommandType::try_from(self.lines[self.position].as_str());
        proof {
            assert(self.pending()[0] == self.lines[self.position as int]@);
            assert(self.lines.deep_view().skip(self.position + 1) =~= self.pending().drop_first());
        }
        self.position += 1;
        match parsed {
            Ok(CommandType::A { symbol }) => {
                let digits = to_chars(symbol.as_str());
                if is_numeral(&digits) {
                    if parse_u32(&digits).is_ok() {
                        return Some(Ok(Command { kind: CommandType::A { symbol } }));
                    }
                    return Some(Err(AssemblyError::Overflow { symbol }));
                }
                if !self.symbol_table.contains(symbol.as_str())
                    && self.symbol_table.next_variable() == u32::MAX {
                    return Some(Err(AssemblyError::Overflow { symbol }));
                }
                let address = self.symbol_table.allocate_variable(symbol.as_str());
                Some(Ok(Command { kind: CommandType::A { symbol: decimal_string(address as u64) } }))
            },
            Ok(kind) => Some(Ok(Command { kind })),
            Err(e) => Some(Err(e)),
        }
    }
}

/// Once the first pass has failed on some of the first lines of a program,
/// it fails on the whole program with the same error.
pub proof fn lemma_first_pass_error(lines: Seq<Seq<char>>, n: int)
    requires
        0 <= n <= lines.len(),
        first_pass(lines.take(n)) is Err,
    ensures
        first_pass(lines) == first_pass(lines.take(n)),
    decreases lines.len() - n,
{
    if n == lines.len() {
        assert(lines.take(n) =~= lines);
    } else {
        assert(lines.drop_last().take(n) =~= lines.take(n));
        lemma_first_pass_error(lines.drop_last(), n);
    }
}

} // verus!
