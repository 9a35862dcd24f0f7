//! The three tables that give each mnemonic of a computation instruction
//! its bits.

use crate::assembler::error::{AssemblyError, AssemblyErrorView, Field};
use crate::text::chars::{same_chars, to_chars};
use vstd::prelude::*;
use vstd::string::StringExecFns;

verus! {

/// Holds when `s` is made of `width` characters, each `0` or `1`.
pub open spec fn is_binary(s: Seq<char>, width: nat) -> bool {
    &&& s.len() == width
    &&& forall|i: int| 0 <= i < s.len() ==> s[i] == '0' || s[i] == '1'
}

/// The three bits of a destination: one each for `A`, `D` and `M`. The
/// empty mnemonic stores the result nowhere.
pub open spec fn dest_code(mnemonic: Seq<char>) -> Option<Seq<char>> {
    if mnemonic == ""@ {
        Some("000"@)
    } else if mnemonic == "M"@ {
        Some("001"@)
    } else if mnemonic == "D"@ {
        Some("010"@)
    } else if mnemonic == "MD"@ {
        Some("011"@)
    } else if mnemonic == "A"@ {
        Some("100"@)
    } else if mnemonic == "AM"@ {
        Some("101"@)
    } else if mnemonic == "AD"@ {
        Some("110"@)
    } else if mnemonic == "AMD"@ {
        Some("111"@)
    } else {
        None
    }
}

/// The seven bits of a computation. The first tells whether the second
/// operand is `M` (1) or `A` (0); the other six drive the arithmetic unit.
/// Sums, conjunctions and disjunctions of two registers may name their
/// operands in either order.
pub open spec fn comp_code(mnemonic: Seq<char>) -> Option<Seq<char>> {
    if mnemonic == "0"@ {
        Some("0101010"@)
    } else if mnemonic == "1"@ {
        Some("0111111"@)
    } else if mnemonic == "-1"@ {
        Some("0111010"@)
    } else if mnemonic == "D"@ {
        Some("0001100"@)
    } else if mnemonic == "A"@ {
        Some("0110000"@)
    } else if mnemonic == "!D"@ {
        Some("0001101"@)
    } else if mnemonic == "!A"@ {
        Some("0110001"@)
    } else if mnemonic == "-D"@ {
        Some("0001111"@)
    } else if mnemonic == "-A"@ {
        Some("0110011"@)
    } else if mnemonic == "D+1"@ {
        Some("0011111"@)
    } else if mnemonic == "A+1"@ {
        Some("0110111"@)
    } else if mnemonic == "D-1"@ {
        Some("0001110"@)
    } else if mnemonic == "A-1"@ {
        Some("0110010"@)
    } else if mnemonic == "D+A"@ {
        Some("0000010"@)
    } else if mnemonic == "A+D"@ {
        Some("0000010"@)
    } else if mnemonic == "D-A"@ {
        Some("0010011"@)
    } else if mnemonic == "A-D"@ {
        Some("0000111"@)
    } else if mnemonic == "D&A"@ {
        Some("0000000"@)
    } else if mnemonic == "A&D"@ {
        Some("0000000"@)
    } else if mnemonic == "D|A"@ {
        Some("0010101"@)
    } else if mnemonic == "A|D"@ {
        Some("0010101"@)
    } else if mnemonic == "M"@ {
        Some("1110000"@)
    } else if mnemonic == "!M"@ {
        Some("1110001"@)
    } else if mnemonic == "-M"@ {
        Some("1110011"@)
    } else if mnemonic == "M+1"@ {
        Some("1110111"@)
    } else if mnemonic == "M-1"@ {
        Some("1110010"@)
    } else if mnemonic == "D+M"@ {
        Some("1000010"@)
    } else if mnemonic == "M+D"@ {
        Some("1000010"@)
    } else if mnemonic == "D-M"@ {
        Some("1010011"@)
    } else if mnemonic == "M-D"@ {
        Some("1000111"@)
    } else if mnemonic == "D&M"@ {
        Some("1000000"@)
    } else if mnemonic == "M&D"@ {
        Some("1000000"@)
    } else if mnemonic == "D|M"@ {
        Some("1010101"@)
    } else if mnemonic == "M|D"@ {
        Some("1010101"@)
    } else {
        None
    }
}

/// The three bits of a jump condition: one each for a result below, equal
/// to and above zero. The empty mnemonic never jumps.
pub open spec fn jump_code(mnemonic: Seq<char>) -> Option<Seq<char>> {
    if mnemonic == ""@ {
        Some("000"@)
    } else if mnemonic == "JGT"@ {
        Some("001"@)
    } else if mnemonic == "JEQ"@ {
        Some("010"@)
    } else if mnemonic == "JGE"@ {
        Some("011"@)
    } else if mnemonic == "JLT"@ {
        Some("100"@)
    } else if mnemonic == "JNE"@ {
        Some("101"@)
    } else if mnemonic == "JLE"@ {
        Some("110"@)
    } else if mnemonic == "JMP"@ {
        Some("111"@)
    } else {
        None
    }
}

/// Looks a destination mnemonic up.
pub fn dest_lookup(mnemonic: &str) -> (r: Result<&'static str, AssemblyError>)
    ensures
        match dest_code(mnemonic@) {
            Some(code) => r matches Ok(c) && c@ == code,
            None => r matches Err(e) && e@ == (AssemblyErrorView::Encoding {
                field: Field::Dest,
                mnemonic: mnemonic@,
            }),
        },
{
    let m = to_chars(mnemonic);
    if same_chars(&m, "") {
        Ok("000")
    } else if same_chars(&m, "M") {
        Ok("001")
    } else if same_chars(&m, "D") {
        Ok("010")
    } else if same_chars(&m, "MD") {
        Ok("011")
    } else if same_chars(&m, "A") {
        Ok("100")
    } else if same_chars(&m, "AM") {
        Ok("101")
    } else if same_chars(&m, "AD") {
        Ok("110")
    } else if same_chars(&m, "AMD") {
        Ok("111")
    } else {
        Err(AssemblyError::Encoding { field: Field::Dest, mnemonic: String::from_str(mnemonic) })
    }
}

/// Looks a computation mnemonic up.
pub fn comp_lookup(mnemonic: &str) -> (r: Result<&'static str, AssemblyError>)
    ensures
        match comp_code(mnemonic@) {
            Some(code) => r matches Ok(c) && c@ == code,
            None => r matches Err(e) && e@ == (AssemblyErrorView::Encoding {
                field: Field::Comp,
                mnemonic: mnemonic@,
            }),
        },
{
    let m = to_chars(mnemonic);
    if same_chars(&m, "0") {
        Ok("0101010")
    } else if same_chars(&m, "1") {
        Ok("0111111")
    } else if same_chars(&m, "-1") {
        Ok("0111010")
    } else if same_chars(&m, "D") {
        Ok("0001100")
    } else if same_chars(&m, "A") {
        Ok("0110000")
    } else if same_chars(&m, "!D") {
        Ok("0001101")
    } else if same_chars(&m, "!A") {
        Ok("0110001")
    } else if same_chars(&m, "-D") {
        Ok("0001111")
    } else if same_chars(&m, "-A") {
        Ok("0110011")
    } else if same_chars(&m, "D+1") {
        Ok("0011111")
    } else if same_chars(&m, "A+1") {
        Ok("0110111")
    } else if same_chars(&m, "D-1") {
        Ok("0001110")
    } else if same_chars(&m, "A-1") {
        Ok("0110010")
    } else if same_chars(&m, "D+A") {
        Ok("0000010")
    } else if same_chars(&m, "A+D") {
        Ok("0000010")
    } else if same_chars(&m, "D-A") {
        Ok("0010011")
    } else if same_chars(&m, "A-D") {
        Ok("0000111")
    } else if same_chars(&m, "D&A") {
        Ok("0000000")
    } else if same_chars(&m, "A&D") {
        Ok("0000000")
    } else if same_chars(&m, "D|A") {
        Ok("0010101")
    } else if same_chars(&m, "A|D") {
        Ok("0010101")
    } else if same_chars(&m, "M") {
        Ok("1110000")
    } else if same_chars(&m, "!M") {
        Ok("1110001")
    } else if same_chars(&m, "-M") {
        Ok("1110011")
    } else if same_chars(&m, "M+1") {
        Ok("1110111")
    } else if same_chars(&m, "M-1") {
        Ok("1110010")
    } else if same_chars(&m, "D+M") {
        Ok("1000010")
    } else if same_chars(&m, "M+D") {
        Ok("1000010")
    } else if same_chars(&m, "D-M") {
        Ok("1010011")
    } else if same_chars(&m, "M-D") {
        Ok("1000111")
    } else if same_chars(&m, "D&M") {
        Ok("1000000")
    } else if same_chars(&m, "M&D") {
        Ok("1000000")
    } else if same_chars(&m, "D|M") {
        Ok("1010101")
    } else if same_chars(&m, "M|D") {
        Ok("1010101")
    } else {
        Err(AssemblyError::Encoding { field: Field::Comp, mnemonic: String::from_str(mnemonic) })
    }
}

/// Looks a jump mnemonic up.
pub fn jump_lookup(mnemonic: &str) -> (r: Result<&'static str, AssemblyError>)
    ensures
        match jump_code(mnemonic@) {
            Some(code) => r matches Ok(c) && c@ == code,
            None => r matches Err(e) && e@ == (AssemblyErrorView::Encoding {
                field: Field::Jump,
                mnemonic: mnemonic@,
            }),
        },
{
    let m = to_chars(mnemonic);
    if same_chars(&m, "") {
        Ok("000")
    } else if same_chars(&m, "JGT") {
        Ok("001")
    } else if same_chars(&m, "JEQ") {
        Ok("010")
    } else if same_chars(&m, "JGE") {
        Ok("011")
    } else if same_chars(&m, "JLT") {
        Ok("100")
    } else if same_chars(&m, "JNE") {
        Ok("101")
    } else if same_chars(&m, "JLE") {
        Ok("110")
    } else if same_chars(&m, "JMP") {
        Ok("111")
    } else {
        Err(AssemblyError::Encoding { field: Field::Jump, mnemonic: String::from_str(mnemonic) })
    }
}

/// Every destination code is three binary digits.
pub proof fn lemma_dest_code_is_binary(mnemonic: Seq<char>)
    requires
        dest_code(mnemonic) is Some,
    ensures
        is_binary(dest_code(mnemonic)->0, 3),
{
    reveal_strlit("000");
    reveal_strlit("001");
    reveal_strlit("010");
    reveal_strlit("011");
    reveal_strlit("100");
    reveal_strlit("101");
    reveal_strlit("110");
    reveal_strlit("111");
}

/// Every computation code is seven binary digits.
pub proof fn lemma_comp_code_is_binary(mnemonic: Seq<char>)
    requires
        comp_code(mnemonic) is Some,
    ensures
        is_binary(comp_code(mnemonic)->0, 7),
{
    reveal_strlit("0101010");
    reveal_strlit("0111111");
    reveal_strlit("0111010");
    reveal_strlit("0001100");
    reveal_strlit("0110000");
    reveal_strlit("0001101");
    reveal_strlit("0110001");
    reveal_strlit("0001111");
    reveal_strlit("0110011");
    reveal_strlit("0011111");
    reveal_strlit("0110111");
    reveal_strlit("0001110");
    reveal_strlit("0110010");
    reveal_strlit("0000010");
    reveal_strlit("0010011");
    reveal_strlit("0000111");
    reveal_strlit("0000000");
    reveal_strlit("0010101");
    reveal_strlit("1110000");
    reveal_strlit("1110001");
    reveal_strlit("1110011");
    reveal_strlit("1110111");
    reveal_strlit("1110010");
    reveal_strlit("1000010");
    reveal_strlit("1010011");
    reveal_strlit("1000111");
    reveal_strlit("1000000");
    reveal_strlit("1010101");
}

/// Every jump code is three binary digits.
pub proof fn lemma_jump_code_is_binary(mnemonic: Seq<char>)
    requires
        jump_code(mnemonic) is Some,
    ensures
        is_binary(jump_code(mnemonic)->0, 3),
{
    reveal_strlit("000");
    reveal_strlit("001");
    reveal_strlit("010");
    reveal_strlit("011");
    reveal_strlit("100");
    reveal_strlit("101");
    reveal_strlit("110");
    reveal_strlit("111");
}

/// The characters that mnemonics are written with: capital letters, digits
/// and the signs of the operations.
pub open spec fn is_mnemonic_char(c: char) -> bool {
    ||| 'A' <= c <= 'Z'
    ||| '0' <= c <= '9'
    ||| c == '+'
    ||| c == '-'
    ||| c == '!'
    ||| c == '&'
    ||| c == '|'
}

/// Holds when every character of `s` is one that mnemonics are written
/// with.
pub open spec fn is_mnemonic(s: Seq<char>) -> bool {
    forall|i: int| 0 <= i < s.len() ==> is_mnemonic_char(#[trigger] s[i])
}

/// Every destination mnemonic is written with mnemonic characters only.
pub proof fn lemma_dest_mnemonic(mnemonic: Seq<char>)
    requires
        dest_code(mnemonic) is Some,
    ensures
        is_mnemonic(mnemonic),
{
    reveal_strlit("");
    reveal_strlit("M");
    reveal_strlit("D");
    reveal_strlit("MD");
    reveal_strlit("A");
    reveal_strlit("AM");
    reveal_strlit("AD");
    reveal_strlit("AMD");
}

/// Every computation mnemonic is written with mnemonic characters only.
pub proof fn lemma_comp_mnemonic(mnemonic: Seq<char>)
    requires
        comp_code(mnemonic) is Some,
    ensures
        is_mnemonic(mnemonic),
{
    reveal_strlit("0");
    reveal_strlit("1");
    reveal_strlit("-1");
    reveal_strlit("D");
    reveal_strlit("A");
    reveal_strlit("!D");
    reveal_strlit("!A");
    reveal_strlit("-D");
    reveal_strlit("-A");
    reveal_strlit("D+1");
    reveal_strlit("A+1");
    reveal_strlit("D-1");
    reveal_strlit("A-1");
    reveal_strlit("D+A");
    reveal_strlit("A+D");
    reveal_strlit("D-A");
    reveal_strlit("A-D");
    reveal_strlit("D&A");
    reveal_strlit("A&D");
    reveal_strlit("D|A");
    reveal_strlit("A|D");
    reveal_strlit("M");
    reveal_strlit("!M");
    reveal_strlit("-M");
    reveal_strlit("M+1");
    reveal_strlit("M-1");
    reveal_strlit("D+M");
    reveal_strlit("M+D");
    reveal_strlit("D-M");
    reveal_strlit("M-D");
    reveal_strlit("D&M");
    reveal_strlit("M&D");
    reveal_strlit("D|M");
    reveal_strlit("M|D");
}

/// Every jump mnemonic is written with mnemonic characters only.
pub proof fn lemma_jump_mnemonic(mnemonic: Seq<char>)
    requires
        jump_code(mnemonic) is Some,
    ensures
        is_mnemonic(mnemonic),
{
    reveal_strlit("");
    reveal_strlit("JGT");
    reveal_strlit("JEQ");
    reveal_strlit("JGE");
    reveal_strlit("JLT");
    reveal_strlit("JNE");
    reveal_strlit("JLE");
    reveal_strlit("JMP");
}

} // verus!
