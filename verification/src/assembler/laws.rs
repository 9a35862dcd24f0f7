//! What holds of the assembler for every program: how single lines are
//! read and written, and how names get their addresses.

use crate::assembler::code::{
    comp_code, dest_code, is_binary, is_mnemonic, is_mnemonic_char, jump_code,
    lemma_comp_code_is_binary, lemma_comp_mnemonic, lemma_dest_code_is_binary,
    lemma_dest_mnemonic, lemma_jump_code_is_binary, lemma_jump_mnemonic,
};
use crate::assembler::assembler::{
    assemble_lines, emit_line, lemma_second_pass_error, second_pass, Assembler,
};
use crate::assembler::error::AssemblyErrorView;
use crate::assembler::parser::{
    address_word, binary, encode, first_pass, normalize, parse_line, resolve, resolve_line,
    without_spaces, Instruction, MAX_ADDRESS,
};
use crate::assembler::symbols::{initial_symbols, register_name, registers, Symbols};
use crate::text::chars::white_space;
use crate::text::decimal::{
    decimal, decimal_value, is_digit, lemma_parse_numeral, numeral, unsigned_part, lemma_decimal_injective, lemma_decimal_is_numeral, lemma_parse_decimal_is_numeral,
    lemma_parse_decimal_of_decimal, parse_decimal, NumberError,
};
use crate::text::search::{is_position, lemma_position_unique, lemma_without_comment_identity};
use vstd::arithmetic::power2::{lemma2_to64, lemma_pow2_unfold, pow2};
use vstd::prelude::*;

verus! {

/// Taking the white space out of a text that has none leaves it as it is.
pub proof fn lemma_without_spaces_identity(s: Seq<char>)
    requires
        forall|i: int| 0 <= i < s.len() ==> !white_space(#[trigger] s[i]),
    ensures
        without_spaces(s) == s,
    decreases s.len(),
{
    reveal(Seq::filter);
    if s.len() > 0 {
        lemma_without_spaces_identity(s.drop_last());
        s.drop_last().lemma_filter_push(s.last(), |c: char| !white_space(c));
        assert(s.drop_last().push(s.last()) =~= s);
    }
}

/// A line without white space and without a slash counts as it stands.
pub proof fn lemma_normalize_identity(s: Seq<char>)
    requires
        forall|i: int| 0 <= i < s.len() ==> !white_space(#[trigger] s[i]) && s[i] != '/',
    ensures
        normalize(s) == s,
{
    lemma_without_spaces_identity(s);
    lemma_without_comment_identity(s);
}

/// A line made of a destination, `=`, a computation, `;` and a jump, each
/// written with mnemonic characters only, is read as the computation
/// instruction with these three fields.
pub proof fn lemma_parse_computation(dest: Seq<char>, comp: Seq<char>, jump: Seq<char>)
    requires
        is_mnemonic(dest),
        is_mnemonic(comp),
        is_mnemonic(jump),
    ensures
        parse_line(dest + seq!['='] + comp + seq![';'] + jump) == Some(
            Instruction::C { dest, comp, jump },
        ),
{
    let line = dest + seq!['='] + comp + seq![';'] + jump;
    let a = dest.len() as int;
    let b = a + 1 + comp.len();
    assert forall|i: int| 0 <= i < line.len() implies (if i < a {
        line[i] == dest[i]
    } else if i == a {
        line[i] == '='
    } else if i < b {
        line[i] == comp[i - a - 1]
    } else if i == b {
        line[i] == ';'
    } else {
        line[i] == jump[i - b - 1]
    }) by {}
    assert forall|i: int| 0 <= i < line.len() implies !white_space(#[trigger] line[i]) && line[i]
        != '/' by {
        if i < a {
            assert(is_mnemonic_char(dest[i]));
        } else if i == a {
        } else if i < b {
            assert(is_mnemonic_char(comp[i - a - 1]));
        } else if i == b {
        } else {
            assert(is_mnemonic_char(jump[i - b - 1]));
        }
    }
    lemma_normalize_identity(line);
    if a > 0 {
        assert(is_mnemonic_char(dest[0]));
    }
    assert(line[0] != '@' && line[0] != '(');
    assert(is_position(line, '=', a)) by {
        assert forall|j: int| 0 <= j < a implies line[j] != '=' by {
            assert(is_mnemonic_char(dest[j]));
        }
    }
    lemma_position_unique(line, '=', a);
    assert(is_position(line, ';', b)) by {
        assert forall|j: int| 0 <= j < b implies line[j] != ';' by {
            if j < a {
                assert(is_mnemonic_char(dest[j]));
            } else if j > a {
                assert(is_mnemonic_char(comp[j - a - 1]));
            }
        }
    }
    lemma_position_unique(line, ';', b);
    let rest = line.skip(a + 1);
    assert(rest =~= comp + seq![';'] + jump);
    assert(is_position(rest, ';', comp.len() as int)) by {
        assert forall|j: int| 0 <= j < comp.len() implies rest[j] != ';' by {
            assert(is_mnemonic_char(comp[j]));
        }
    }
    lemma_position_unique(rest, ';', comp.len() as int);
    assert(line.take(a) =~= dest);
    assert(rest.take(comp.len() as int) =~= comp);
    assert(rest.skip(comp.len() as int + 1) =~= jump);
}

/// For all known mnemonics, the line `dest=comp;jump` is read as the
/// computation instruction with these fields, and its word is sixteen
/// binary digits: three ones and the codes of the computation, of the
/// destination and of the jump, in this order.
pub proof fn lemma_computation_word(dest: Seq<char>, comp: Seq<char>, jump: Seq<char>)
    requires
        dest_code(dest) is Some,
        comp_code(comp) is Some,
        jump_code(jump) is Some,
    ensures
        ({
            let instruction = Instruction::C { dest, comp, jump };
            let word = seq!['1', '1', '1'] + comp_code(comp)->0 + dest_code(dest)->0 + jump_code(
                jump,
            )->0;
            &&& parse_line(dest + seq!['='] + comp + seq![';'] + jump) == Some(instruction)
            &&& encode(instruction) == Ok::<Seq<char>, AssemblyErrorView>(word)
            &&& is_binary(word, 16)
        }),
{
    lemma_dest_mnemonic(dest);
    lemma_comp_mnemonic(comp);
    lemma_jump_mnemonic(jump);
    lemma_parse_computation(dest, comp, jump);
    lemma_dest_code_is_binary(dest);
    lemma_comp_code_is_binary(comp);
    lemma_jump_code_is_binary(jump);
    reveal_strlit("111");
    assert("111"@ =~= seq!['1', '1', '1']);
}

/// The bits that `binary` writes are binary digits, as many as asked for.
pub proof fn lemma_binary_is_binary(value: nat, width: nat)
    ensures
        is_binary(binary(value, width), width),
    decreases width,
{
    if width > 0 {
        lemma_binary_is_binary(value / 2, (width - 1) as nat);
    }
}

/// The number that a sequence of binary digits stands for, highest bit
/// first.
pub open spec fn binary_value(bits: Seq<char>) -> nat
    decreases bits.len(),
{
    if bits.len() == 0 {
        0
    } else {
        2 * binary_value(bits.drop_last()) + if bits.last() == '1' {
            1nat
        } else {
            0nat
        }
    }
}

/// The bits that `binary` writes stand for the number they were written
/// for, where the width is enough for it.
pub proof fn lemma_binary_value(value: nat, width: nat)
    requires
        value < pow2(width),
    ensures
        binary_value(binary(value, width)) == value,
    decreases width,
{
    if width == 0 {
        lemma2_to64();
    } else {
        lemma_pow2_unfold(width);
        lemma_binary_value(value / 2, (width - 1) as nat);
        assert(binary(value, width).drop_last() =~= binary(value / 2, (width - 1) as nat));
    }
}

/// For every symbol that reads as a decimal number of at most fifteen
/// bits, the line `@symbol` is read as an address instruction, and its word
/// is a `0` and the fifteen bits of the number, highest first.
pub proof fn lemma_address_word(symbol: Seq<char>, address: u32)
    requires
        parse_decimal(symbol) == Ok::<u32, NumberError>(address),
        address <= MAX_ADDRESS,
    ensures
        ({
            let instruction = Instruction::A { symbol };
            let word = address_word(address as nat);
            &&& parse_line(seq!['@'] + symbol) == Some(instruction)
            &&& encode(instruction) == Ok::<Seq<char>, AssemblyErrorView>(word)
            &&& is_binary(word, 16)
            &&& word[0] == '0'
            &&& binary_value(word.skip(1)) == address
        }),
{
    let line = seq!['@'] + symbol;
    lemma_parse_decimal_is_numeral(symbol);
    let digits = unsigned_part(symbol);
    assert forall|i: int| 0 <= i < line.len() implies !white_space(#[trigger] line[i]) && line[i]
        != '/' by {
        if i > 0 {
            assert(line[i] == symbol[i - 1]);
            if symbol[0] == '+' {
                if i > 1 {
                    assert(is_digit(digits[i - 2]));
                }
            } else {
                assert(is_digit(digits[i - 1]));
            }
        }
    }
    lemma_normalize_identity(line);
    assert(line.skip(1) =~= symbol);
    lemma_binary_is_binary(address as nat, 15);
    lemma2_to64();
    lemma_binary_value(address as nat, 15);
    assert(address_word(address as nat).skip(1) =~= binary(address as nat, 15));
}

/// For every number of at most fifteen bits, the line made of `@` and the
/// decimal numeral of the number is written as a `0` and the fifteen bits
/// of the number.
pub proof fn lemma_literal_word(n: u32)
    requires
        n <= MAX_ADDRESS,
    ensures
        parse_line(seq!['@'] + decimal(n as nat)) == Some(
            Instruction::A { symbol: decimal(n as nat) },
        ),
        encode(Instruction::A { symbol: decimal(n as nat) }) == Ok::<
            Seq<char>,
            AssemblyErrorView,
        >(address_word(n as nat)),
{
    lemma_parse_decimal_of_decimal(n);
    lemma_address_word(decimal(n as nat), n);
}

/// Variables get their addresses in the order of first use: of two
/// different names that the table does not hold, the one used first gets the
/// next variable address and the other the address after it, and a later
/// use of the first name gives its address again and leaves the table as
/// it is.
pub proof fn lemma_variables_in_order(table: Symbols, x: Seq<char>, y: Seq<char>)
    requires
        !table.bound.contains_key(x),
        !table.bound.contains_key(y),
        x != y,
        table.next + 2 <= u32::MAX,
    ensures
        ({
            let after_x = table.with_variable(x);
            let after_y = after_x.with_variable(y);
            &&& table.variable_address(x) == table.next
            &&& after_x.variable_address(y) == table.next + 1
            &&& after_y.variable_address(x) == table.next
            &&& after_y.with_variable(x) == after_y
            &&& after_y.next == table.next + 2
        }),
{
}

/// In a program that uses two different names, neither predefined nor a
/// label, as its first two variables, the first gets address 16 and the
/// second address 17.
pub proof fn lemma_first_variables(x: Seq<char>, y: Seq<char>)
    requires
        !initial_symbols().bound.contains_key(x),
        !initial_symbols().bound.contains_key(y),
        x != y,
    ensures
        initial_symbols().variable_address(x) == 16,
        initial_symbols().with_variable(x).variable_address(y) == 17,
        initial_symbols().with_variable(x).with_variable(y).variable_address(x) == 16,
{
    lemma_variables_in_order(initial_symbols(), x, y);
}

/// Assembling is repeatable: two assemblers made from the same lines read
/// the same lines against the same table, so that their second passes end
/// alike, in the words or the error that the lines alone decide.
pub proof fn lemma_assembly_repeats(lines: Seq<Seq<char>>, one: Assembler, other: Assembler)
    requires
        first_pass(lines) is Ok,
        one.pending() == lines,
        one.symbols() == first_pass(lines)->Ok_0.symbols,
        other.pending() == lines,
        other.symbols() == first_pass(lines)->Ok_0.symbols,
    ensures
        second_pass(one.pending(), one.symbols()) == second_pass(
            other.pending(),
            other.symbols(),
        ),
        second_pass(one.pending(), one.symbols()).result() == assemble_lines(lines),
{
}

/// Whether a line names an address or a computation instruction.
pub open spec fn is_instruction_line(raw: Seq<char>) -> bool {
    parse_line(raw) matches Some(instruction) && instruction.is_executable()
}

/// How many of the lines name an address or a computation instruction.
pub open spec fn instruction_count(lines: Seq<Seq<char>>) -> nat
    decreases lines.len(),
{
    if lines.len() == 0 {
        0
    } else {
        instruction_count(lines.drop_last()) + if is_instruction_line(lines.last()) {
            1nat
        } else {
            0nat
        }
    }
}

/// Where the first pass succeeds, it has counted the instructions of the
/// program.
pub proof fn lemma_first_pass_counts(lines: Seq<Seq<char>>)
    requires
        first_pass(lines) is Ok,
    ensures
        first_pass(lines)->Ok_0.count == instruction_count(lines),
    decreases lines.len(),
{
    if lines.len() > 0 {
        lemma_first_pass_counts(lines.drop_last());
    }
}

/// Where the first pass succeeds, the label that a line defines, and no
/// later line defines again, is bound to the number of instructions before
/// that line.
pub proof fn lemma_first_pass_binds(lines: Seq<Seq<char>>, defined_at: int, name: Seq<char>)
    requires
        first_pass(lines) is Ok,
        0 <= defined_at < lines.len(),
        parse_line(lines[defined_at]) == Some(Instruction::L { symbol: name }),
        forall|k: int|
            defined_at < k < lines.len() ==> parse_line(#[trigger] lines[k]) != Some(
                Instruction::L { symbol: name },
            ),
    ensures
        first_pass(lines)->Ok_0.symbols.bound.contains_key(name),
        first_pass(lines)->Ok_0.symbols.bound[name] == instruction_count(
            lines.take(defined_at),
        ),
    decreases lines.len(),
{
    let earlier = lines.drop_last();
    let last = lines.len() - 1;
    if defined_at == last {
        lemma_first_pass_counts(earlier);
        assert(lines.take(defined_at) =~= earlier);
    } else {
        assert(earlier[defined_at] == lines[defined_at]);
        assert forall|k: int| defined_at < k < earlier.len() implies parse_line(
            #[trigger] earlier[k],
        ) != Some(Instruction::L { symbol: name }) by {
            assert(earlier[k] == lines[k]);
        }
        lemma_first_pass_binds(earlier, defined_at, name);
        assert(earlier.take(defined_at) =~= lines.take(defined_at));
        assert(parse_line(lines[last]) != Some(Instruction::L { symbol: name }));
    }
}

/// The second pass binds new names only: a name that the table holds when
/// the pass begins keeps its address.
pub proof fn lemma_second_pass_keeps(lines: Seq<Seq<char>>, symbols: Symbols, name: Seq<char>)
    requires
        symbols.bound.contains_key(name),
    ensures
        second_pass(lines, symbols).symbols.bound.contains_key(name),
        second_pass(lines, symbols).symbols.bound[name] == symbols.bound[name],
    decreases lines.len(),
{
    if lines.len() > 0 {
        lemma_second_pass_keeps(lines.drop_last(), symbols, name);
    }
}

/// Where the second pass gets through a program, it gets through each of
/// its beginnings.
pub proof fn lemma_second_pass_prefix(lines: Seq<Seq<char>>, symbols: Symbols, n: int)
    requires
        second_pass(lines, symbols).error is None,
        0 <= n <= lines.len(),
    ensures
        second_pass(lines.take(n), symbols).error is None,
{
    if second_pass(lines.take(n), symbols).error is Some {
        lemma_second_pass_error(lines, symbols, n);
    }
}

/// Where the second pass gets through a program, it writes one word for
/// each instruction.
pub proof fn lemma_second_pass_length(lines: Seq<Seq<char>>, symbols: Symbols)
    requires
        second_pass(lines, symbols).error is None,
    ensures
        second_pass(lines, symbols).output.len() == instruction_count(lines),
    decreases lines.len(),
{
    if lines.len() > 0 {
        lemma_second_pass_length(lines.drop_last(), symbols);
    }
}

/// Where the second pass gets through a program, the words of each of its
/// beginnings are the first words of the program.
pub proof fn lemma_second_pass_output(lines: Seq<Seq<char>>, symbols: Symbols, n: int)
    requires
        second_pass(lines, symbols).error is None,
        0 <= n <= lines.len(),
    ensures
        ({
            let part = second_pass(lines.take(n), symbols).output;
            let whole = second_pass(lines, symbols).output;
            &&& part.len() <= whole.len()
            &&& forall|k: int| 0 <= k < part.len() ==> whole[k] == part[k]
        }),
    decreases lines.len() - n,
{
    if n == lines.len() {
        assert(lines.take(n) =~= lines);
    } else {
        assert(lines.drop_last().take(n) =~= lines.take(n));
        lemma_second_pass_output(lines.drop_last(), symbols, n);
    }
}

/// A label resolves to the address of the instruction that follows its
/// definition, whether it is used before the definition or after it. In a
/// program that assembles, take a line `@name` whose name is no numeral and
/// the last line that defines `(name)`: the word written for the first is a
/// `0` and the fifteen bits of the number of instructions that stand before
/// the second.
pub proof fn lemma_label_address(
    lines: Seq<Seq<char>>,
    used_at: int,
    defined_at: int,
    name: Seq<char>,
)
    requires
        assemble_lines(lines) is Ok,
        0 <= used_at < lines.len(),
        0 <= defined_at < lines.len(),
        parse_line(lines[used_at]) == Some(Instruction::A { symbol: name }),
        parse_line(lines[defined_at]) == Some(Instruction::L { symbol: name }),
        forall|k: int|
            defined_at < k < lines.len() ==> parse_line(#[trigger] lines[k]) != Some(
                Instruction::L { symbol: name },
            ),
        !numeral(name),
    ensures
        ({
            let words = assemble_lines(lines)->Ok_0;
            let at = instruction_count(lines.take(used_at)) as int;
            let address = instruction_count(lines.take(defined_at));
            &&& at < words.len()
            &&& address <= MAX_ADDRESS
            &&& words[at] == address_word(address)
        }),
{
    let symbols = first_pass(lines)->Ok_0.symbols;
    let address = instruction_count(lines.take(defined_at));
    lemma_first_pass_binds(lines, defined_at, name);
    let head = lines.take(used_at);
    let upto = lines.take(used_at + 1);
    let before = second_pass(head, symbols);
    let after = second_pass(upto, symbols);
    lemma_second_pass_prefix(lines, symbols, used_at);
    lemma_second_pass_prefix(lines, symbols, used_at + 1);
    lemma_second_pass_keeps(head, symbols, name);
    lemma_second_pass_length(head, symbols);
    lemma_second_pass_output(lines, symbols, used_at + 1);
    assert(upto.drop_last() =~= head);
    assert(upto.last() == lines[used_at]);
    assert(after == emit_line(before, lines[used_at]));
    let bound = before.symbols.bound[name];
    assert(bound == address);
    lemma_parse_decimal_of_decimal(bound);
    lemma_decimal_is_numeral(bound as nat);
    assert(resolve_line(before.symbols, lines[used_at]) == Ok::<
        (Symbols, Instruction),
        AssemblyErrorView,
    >((before.symbols, Instruction::A { symbol: decimal(bound as nat) })));
    assert(after.output == before.output.push(address_word(address)));
    assert(after.output[before.output.len() as int] == address_word(address));
}

/// The second pass leaves no symbol unresolved: whatever stops it, it is not
/// an address instruction whose symbol is no numeral.
pub proof fn lemma_second_pass_resolves(lines: Seq<Seq<char>>, symbols: Symbols)
    ensures
        !(second_pass(lines, symbols).error matches Some(AssemblyErrorView::Unresolved { .. })),
    decreases lines.len(),
{
    if lines.len() > 0 {
        lemma_second_pass_resolves(lines.drop_last(), symbols);
        let before = second_pass(lines.drop_last(), symbols);
        if before.error is None {
            match parse_line(lines.last()) {
                Some(Instruction::A { symbol }) => {
                    if !numeral(symbol) {
                        lemma_decimal_is_numeral(
                            before.symbols.variable_address(symbol) as nat,
                        );
                    }
                },
                _ => {},
            }
        }
    }
}

/// A numeral is a literal and never a variable: resolving an address
/// instruction whose symbol is a numeral leaves the table as it is, whether
/// the name is bound or not. The instruction stays as it is where the
/// number fits in 32 bits, and is an overflow error where it does not.
pub proof fn lemma_literal_is_no_variable(symbols: Symbols, symbol: Seq<char>)
    requires
        numeral(symbol),
    ensures
        match resolve(symbols, Instruction::A { symbol }) {
            Ok((after, instruction)) => {
                &&& after == symbols
                &&& instruction == Instruction::A { symbol }
                &&& decimal_value(unsigned_part(symbol)) <= u32::MAX
            },
            Err(e) => {
                &&& e == AssemblyErrorView::Overflow { symbol }
                &&& decimal_value(unsigned_part(symbol)) > u32::MAX
            },
        },
{
    lemma_parse_numeral(symbol);
}

/// The table never shrinks: a name that is bound stays bound when another
/// name is bound, when a variable is made, and when a name is used as a
/// variable.
pub proof fn lemma_table_never_shrinks(
    table: Symbols,
    name: Seq<char>,
    other: Seq<char>,
    address: u32,
)
    requires
        table.bound.contains_key(name),
    ensures
        table.bind(other, address).bound.contains_key(name),
        table.allocate(other).bound.contains_key(name),
        table.with_variable(other).bound.contains_key(name),
        table.with_variable(other).bound[name] == table.bound[name],
{
}

/// Different registers have different names.
proof fn lemma_register_names_differ(i: nat, j: nat)
    requires
        i != j,
    ensures
        register_name(i) != register_name(j),
{
    if register_name(i) == register_name(j) {
        let n = "R"@.len() as int;
        assert(register_name(i).skip(n) =~= decimal(i));
        assert(register_name(j).skip(n) =~= decimal(j));
        lemma_decimal_injective(i, j);
    }
}

/// Among the first `n` registers, each is bound to its own number.
proof fn lemma_registers(n: nat, i: nat)
    requires
        i < n <= 16,
    ensures
        registers(n).contains_key(register_name(i)),
        registers(n)[register_name(i)] == i,
    decreases n,
{
    if i < n - 1 {
        lemma_registers((n - 1) as nat, i);
        lemma_register_names_differ(i, (n - 1) as nat);
    }
}

/// Before any line is read, the sixteen registers `R0` to `R15` stand for
/// the addresses 0 to 15, the five pointers for the addresses 0 to 4, and
/// the screen and the keyboard for 16384 and 24576.
pub proof fn lemma_predefined_addresses()
    ensures
        forall|i: nat|
            i < 16 ==> initial_symbols().lookup(#[trigger] register_name(i)) == Some(i as u32),
        initial_symbols().lookup("SP"@) == Some(0u32),
        initial_symbols().lookup("LCL"@) == Some(1u32),
        initial_symbols().lookup("ARG"@) == Some(2u32),
        initial_symbols().lookup("THIS"@) == Some(3u32),
        initial_symbols().lookup("THAT"@) == Some(4u32),
        initial_symbols().lookup("SCREEN"@) == Some(16384u32),
        initial_symbols().lookup("KBD"@) == Some(24576u32),
{
    reveal_strlit("R");
    reveal_strlit("SP");
    reveal_strlit("LCL");
    reveal_strlit("ARG");
    reveal_strlit("THIS");
    reveal_strlit("THAT");
    reveal_strlit("SCREEN");
    reveal_strlit("KBD");
    assert("SP"@[1] == 'P' && "SCREEN"@[1] == 'C');
    assert("LCL"@[0] == 'L' && "ARG"@[0] == 'A' && "KBD"@[0] == 'K');
    assert("THIS"@[0] == 'T' && "THAT"@[0] == 'T' && "SP"@[0] == 'S' && "SCREEN"@[0] == 'S');
    assert("THIS"@[2] == 'I' && "THAT"@[2] == 'A');
    assert forall|i: nat| i < 16 implies initial_symbols().lookup(#[trigger] register_name(i))
        == Some(i as u32) by {
        lemma_registers(16, i);
        assert(register_name(i)[0] == 'R');
    }
}

/// Holds when `name` is one of the names that every program may use
/// without defining them.
pub open spec fn is_predefined(name: Seq<char>) -> bool {
    ||| exists|i: nat| i < 16 && name == #[trigger] register_name(i)
    ||| name == "SP"@
    ||| name == "LCL"@
    ||| name == "ARG"@
    ||| name == "THIS"@
    ||| name == "THAT"@
    ||| name == "SCREEN"@
    ||| name == "KBD"@
}

/// The first `n` registers are the only names among them.
proof fn lemma_register_names(n: nat, name: Seq<char>)
    ensures
        registers(n).contains_key(name) <==> exists|i: nat|
            i < n && name == #[trigger] register_name(i),
    decreases n,
{
    if n > 0 {
        lemma_register_names((n - 1) as nat, name);
        if registers(n).contains_key(name) {
            if name == register_name((n - 1) as nat) {
            } else {
                let i = choose|i: nat| i < n - 1 && name == #[trigger] register_name(i);
                assert(i < n && name == register_name(i));
            }
        }
    }
}

/// Before any line is read, the table holds the predefined names and no
/// others: every other name is free to become a label or a variable.
pub proof fn lemma_predefined_names(name: Seq<char>)
    ensures
        initial_symbols().bound.contains_key(name) <==> is_predefined(name),
{
    lemma_register_names(16, name);
}

} // verus!
