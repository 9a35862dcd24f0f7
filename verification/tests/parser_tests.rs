use hack_toolchain::assembler::code::{comp_lookup, dest_lookup, jump_lookup};
use hack_toolchain::assembler::error::{AssemblyError, Field};
use hack_toolchain::assembler::parser::{Command, CommandType};
use std::collections::HashMap;

#[test]
fn test_parse_a_command() {
    let raw_line = "@123";
    let a = CommandType::try_from(raw_line);
    assert_eq!(
        true,
        match a.unwrap() {
            CommandType::A { symbol } => {
                symbol == "123".to_string()
            }
            _ => false,
        }
    )
}

#[test]
fn test_parse_c_command() {
    let raw_line = "dest=comp;jump";
    let c = CommandType::try_from(raw_line);
    assert_eq!(
        true,
        match c.unwrap() {
            CommandType::C { dest, comp, jump } => {
                dest == "dest" && comp == "comp" && jump == "jump"
            }
            _ => false,
        }
    )
}

#[test]
fn test_parse_c_command_no_jump() {
    let raw_line = "dest=comp";
    let c = CommandType::try_from(raw_line);
    assert_eq!(
        true,
        match c.unwrap() {
            CommandType::C { dest, comp, jump } => {
                dest == "dest" && comp == "comp" && jump == ""
            }
            _ => false,
        }
    )
}

#[test]
fn test_parse_c_command_no_dest() {
    let raw_line = "comp;jump";
    let c = CommandType::try_from(raw_line);
    assert_eq!(
        true,
        match c.unwrap() {
            CommandType::C { dest, comp, jump } => {
                dest == "" && comp == "comp" && jump == "jump"
            }
            _ => false,
        }
    )
}

#[test]
fn test_parse_l_command_with_symbol() {
    let raw_line = "(MARKER)";
    let l = CommandType::try_from(raw_line);
    assert_eq!(
        true,
        match l.unwrap() {
            CommandType::L { symbol } => {
                symbol == "MARKER".to_string()
            }
            _ => false,
        }
    )
}

#[test]
fn test_a_command_with_value() {
    let raw_line = "@100";
    let expected_binary = "0000000001100100";
    let actual_binary = Command {
        kind: CommandType::try_from(raw_line).unwrap(),
    }
    .to_code()
    .unwrap();

    assert_eq!(expected_binary, actual_binary);
}

#[test]
fn test_empty_line() {
    let raw_line = "// this is a comment";
    let parsed_command = Command {
        kind: CommandType::try_from(raw_line).unwrap(),
    };

    assert_eq!(
        true,
        match parsed_command.kind {
            CommandType::Empty => true,
            _ => false,
        }
    );
}

#[test]
fn test_multiple_c_commands() {
    let mut testbed: HashMap<&str, &str> = HashMap::new();
    testbed.insert("MD=M;JEQ", "1111110000011010");
    testbed.insert("D=M", "1111110000010000");
    testbed.insert("M=D+M", "1111000010001000");
    testbed.insert("0;JMP", "1110101010000111");
    testbed.insert("D;JGT", "1110001100000001");

    for (raw_line, expected_binary) in testbed {
        let actual_binary = Command {
            kind: CommandType::try_from(raw_line).unwrap(),
        }
        .to_code()
        .unwrap();
        assert_eq!(expected_binary, actual_binary);
    }
}

fn fields(line: &str) -> (String, String, String) {
    match CommandType::try_from(line).unwrap() {
        CommandType::C { dest, comp, jump } => (dest, comp, jump),
        _ => panic!("{} is no computation instruction", line),
    }
}

fn owned(dest: &str, comp: &str, jump: &str) -> (String, String, String) {
    (dest.to_string(), comp.to_string(), jump.to_string())
}

fn syntax_error_line(line: &str) -> String {
    match CommandType::try_from(line) {
        Err(AssemblyError::Syntax { line }) => line,
        _ => panic!("{} should be a syntax error", line),
    }
}

#[test]
fn white_space_anywhere_is_ignored() {
    assert_eq!(fields("  M D = D + 1 ; J G T  "), owned("MD", "D+1", "JGT"));
    assert_eq!(fields("\tD=M\u{a0}"), owned("D", "M", ""));
    match CommandType::try_from(" @ 1 2 ").unwrap() {
        CommandType::A { symbol } => assert_eq!(symbol, "12"),
        _ => panic!("expected an address instruction"),
    }
}

#[test]
fn comment_is_cut_after_white_space_is_removed() {
    assert_eq!(fields("D=M // load"), owned("D", "M", ""));
    assert_eq!(fields("D=M/ /load"), owned("D", "M", ""));
    assert_eq!(fields("0;JMP//D=A"), owned("", "0", "JMP"));
    match CommandType::try_from("@i// counter").unwrap() {
        CommandType::A { symbol } => assert_eq!(symbol, "i"),
        _ => panic!("expected an address instruction"),
    }
    assert!(matches!(CommandType::try_from("   ").unwrap(), CommandType::Empty));
    assert!(matches!(CommandType::try_from("").unwrap(), CommandType::Empty));
    assert!(matches!(CommandType::try_from(" / / (X)").unwrap(), CommandType::Empty));
}

#[test]
fn a_single_slash_is_no_comment() {
    assert_eq!(fields("D=M/A"), owned("D", "M/A", ""));
}

#[test]
fn address_shape_comes_before_the_other_shapes() {
    match CommandType::try_from("@a=b;c").unwrap() {
        CommandType::A { symbol } => assert_eq!(symbol, "a=b;c"),
        _ => panic!("expected an address instruction"),
    }
    match CommandType::try_from("@").unwrap() {
        CommandType::A { symbol } => assert_eq!(symbol, ""),
        _ => panic!("expected an address instruction"),
    }
}

#[test]
fn label_needs_both_brackets() {
    match CommandType::try_from("()").unwrap() {
        CommandType::L { symbol } => assert_eq!(symbol, ""),
        _ => panic!("expected a label definition"),
    }
    match CommandType::try_from("(a=b)").unwrap() {
        CommandType::L { symbol } => assert_eq!(symbol, "a=b"),
        _ => panic!("expected a label definition"),
    }
    assert_eq!(fields("(A=D"), owned("(A", "D", ""));
    assert_eq!(syntax_error_line("(LOOP"), "(LOOP");
    assert_eq!(syntax_error_line("("), "(");
    assert_eq!(syntax_error_line(")"), ")");
}

#[test]
fn fields_split_at_the_first_separators() {
    assert_eq!(fields("a=b=c"), owned("a", "b=c", ""));
    assert_eq!(fields("a;b;c"), owned("", "a", "b;c"));
    assert_eq!(fields("a=b;c;d"), owned("a", "b", "c;d"));
    assert_eq!(fields("a=b;c=d"), owned("a", "b", "c=d"));
    assert_eq!(fields("=;"), owned("", "", ""));
    assert_eq!(fields("="), owned("", "", ""));
    assert_eq!(fields(";"), owned("", "", ""));
    assert_eq!(fields("D;J=M;X"), owned("D;J", "M", "X"));
}

#[test]
fn jump_separator_only_before_the_assignment_is_a_syntax_error() {
    assert_eq!(syntax_error_line("D;JGT=M"), "D;JGT=M");
    assert_eq!(syntax_error_line(" ;= "), " ;= ");
}

#[test]
fn line_without_a_shape_is_a_syntax_error_with_the_raw_line() {
    assert_eq!(syntax_error_line("foo bar"), "foo bar");
    assert_eq!(syntax_error_line("  D+1 // nothing to do"), "  D+1 // nothing to do");
    let e = Command::new("foo bar").err().unwrap();
    assert_eq!(e.to_string(), "syntax error: \"foo bar\" could not be parsed");
}

#[test]
fn command_new_parses_like_command_type() {
    match Command::new("AM=M-1;JNE").unwrap().kind {
        CommandType::C { dest, comp, jump } => {
            assert_eq!((dest, comp, jump), owned("AM", "M-1", "JNE"))
        }
        _ => panic!("expected a computation instruction"),
    }
    assert!(Command::new("nothing").is_err());
}

fn code(line: &str) -> Result<String, AssemblyError> {
    Command::new(line).unwrap().to_code()
}

#[test]
fn address_words_hold_fifteen_bits() {
    assert_eq!(code("@0").unwrap(), "0000000000000000");
    assert_eq!(code("@1").unwrap(), "0000000000000001");
    assert_eq!(code("@2").unwrap(), "0000000000000010");
    assert_eq!(code("@21845").unwrap(), "0101010101010101");
    assert_eq!(code("@16384").unwrap(), "0100000000000000");
    assert_eq!(code("@32767").unwrap(), "0111111111111111");
    assert_eq!(code("@+7").unwrap(), "0000000000000111");
    assert_eq!(code("@0012").unwrap(), "0000000000001100");
}

#[test]
fn address_beyond_fifteen_bits_is_an_overflow_error() {
    for literal in [
        "32768",
        "65536",
        "4294967295",
        "4294967296",
        "99999999999999999999",
        "+32768",
        "+99999999999",
    ] {
        match code(&format!("@{}", literal)) {
            Err(AssemblyError::Overflow { symbol }) => assert_eq!(symbol, literal),
            _ => panic!("@{} should overflow", literal),
        }
    }
    let e = code("@40000").err().unwrap();
    assert_eq!(e.to_string(), "overflow error: the address of \"40000\" is too large");
}

#[test]
fn address_that_is_no_number_is_unresolved() {
    for name in ["foo", "", "-1", "+", "12a", "R0", "99999999999x", "++1"] {
        match code(&format!("@{}", name)) {
            Err(AssemblyError::Unresolved { symbol }) => assert_eq!(symbol, name),
            _ => panic!("@{} should be unresolved", name),
        }
    }
    let e = code("@loop").err().unwrap();
    assert_eq!(e.to_string(), "unresolved symbol: \"loop\" is no address");
}

#[test]
fn computation_word_is_three_ones_and_the_codes_of_comp_dest_jump() {
    assert_eq!(code("D=A").unwrap(), "1110110000010000");
    assert_eq!(code("D=D+A").unwrap(), "1110000010010000");
    assert_eq!(code("M=D").unwrap(), "1110001100001000");
    assert_eq!(code("AMD=D|M;JMP").unwrap(), "1111010101111111");
    assert_eq!(code("M=M+D").unwrap(), "1111000010001000");
    assert_eq!(code("D=-A").unwrap(), "1110110011010000");
    assert_eq!(code("M=!M").unwrap(), "1111110001001000");
    assert_eq!(code("D=M-D").unwrap(), "1111000111010000");
    assert_eq!(code("A=M").unwrap(), "1111110000100000");
    assert_eq!(code("M=M-1").unwrap(), "1111110010001000");
    assert_eq!(code("D;JLE").unwrap(), "1110001100000110");
}

#[test]
fn unknown_mnemonic_is_an_encoding_error_naming_field_and_text() {
    match code("X=D;JMP") {
        Err(AssemblyError::Encoding { field, mnemonic }) => {
            assert_eq!(field, Field::Dest);
            assert_eq!(mnemonic, "X");
        }
        _ => panic!("expected an encoding error"),
    }
    match code("D=D+2") {
        Err(AssemblyError::Encoding { field, mnemonic }) => {
            assert_eq!(field, Field::Comp);
            assert_eq!(mnemonic, "D+2");
        }
        _ => panic!("expected an encoding error"),
    }
    match code("D;JXX") {
        Err(AssemblyError::Encoding { field, mnemonic }) => {
            assert_eq!(field, Field::Jump);
            assert_eq!(mnemonic, "JXX");
        }
        _ => panic!("expected an encoding error"),
    }
    match code("dest=comp;jump") {
        Err(AssemblyError::Encoding { field, mnemonic }) => {
            assert_eq!(field, Field::Comp);
            assert_eq!(mnemonic, "comp");
        }
        _ => panic!("expected an encoding error"),
    }
    match code("dest=D;jump") {
        Err(AssemblyError::Encoding { field, mnemonic }) => {
            assert_eq!(field, Field::Dest);
            assert_eq!(mnemonic, "dest");
        }
        _ => panic!("expected an encoding error"),
    }
    match code("=;") {
        Err(AssemblyError::Encoding { field, mnemonic }) => {
            assert_eq!(field, Field::Comp);
            assert_eq!(mnemonic, "");
        }
        _ => panic!("expected an encoding error"),
    }
    let e = code("D=D+2").err().unwrap();
    assert_eq!(e.to_string(), "encoding error: \"D+2\" is no comp mnemonic");
    let e = code("X=D").err().unwrap();
    assert_eq!(e.to_string(), "encoding error: \"X\" is no dest mnemonic");
    let e = code("D;JXX").err().unwrap();
    assert_eq!(e.to_string(), "encoding error: \"JXX\" is no jump mnemonic");
}

#[test]
fn mnemonics_are_case_sensitive() {
    assert!(matches!(
        code("d=m"),
        Err(AssemblyError::Encoding { field: Field::Comp, .. })
    ));
    assert!(matches!(
        code("D;jmp"),
        Err(AssemblyError::Encoding { field: Field::Jump, .. })
    ));
}

#[test]
fn every_line_of_known_mnemonics_is_written_from_its_three_codes() {
    let dests = ["", "M", "D", "MD", "A", "AM", "AD", "AMD"];
    let comps = [
        "0", "1", "-1", "D", "A", "!D", "!A", "-D", "-A", "D+1", "A+1", "D-1", "A-1", "D+A",
        "A+D", "D-A", "A-D", "D&A", "A&D", "D|A", "A|D", "M", "!M", "-M", "M+1", "M-1", "D+M",
        "M+D", "D-M", "M-D", "D&M", "M&D", "D|M", "M|D",
    ];
    let jumps = ["", "JGT", "JEQ", "JGE", "JLT", "JNE", "JLE", "JMP"];
    for dest in dests {
        for comp in comps {
            for jump in jumps {
                let line = format!("{}={};{}", dest, comp, jump);
                assert_eq!(fields(&line), owned(dest, comp, jump));
                let word = code(&line).unwrap();
                let expected = format!(
                    "111{}{}{}",
                    comp_lookup(comp).unwrap(),
                    dest_lookup(dest).unwrap(),
                    jump_lookup(jump).unwrap()
                );
                assert_eq!(word, expected);
                assert_eq!(word.len(), 16);
                assert!(word.chars().all(|c| c == '0' || c == '1'));
            }
        }
    }
}

#[test]
fn every_address_of_fifteen_bits_is_written_in_binary() {
    for n in 0..=32767u32 {
        let word = code(&format!("@{}", n)).unwrap();
        assert_eq!(word, format!("0{:015b}", n));
    }
}
