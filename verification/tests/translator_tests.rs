use hack_toolchain::text::decimal::NumberError;
use hack_toolchain::translator::command::Command;
use hack_toolchain::translator::error::{ConversionError, SyntaxError};
use hack_toolchain::translator::parser;
use hack_toolchain::translator::translator::{clean_line, Translator};

#[test]
fn test_empty_line_error() {
    let input_line = "";
    match Command::try_from(input_line) {
        Ok(_) => panic!("empty line should not parse to a command"),
        Err(e) => assert_eq!(e.to_string(), "syntax error: expected operator token"),
    };
}

#[test]
fn test_parse_add() {
    let input_line = "add";
    match Command::try_from(input_line) {
        Ok(c) => assert_eq!(c, Command::Add),
        Err(e) => panic!("{}", e.to_string()),
    };
}

#[test]
fn test_parse_push() {
    let input_line = "push constant 42";
    match Command::try_from(input_line) {
        Ok(c) => match c {
            Command::Push(42) => (),
            _ => panic!("expected Command::Push(42), got {:?}", c),
        },
        Err(e) => panic!("{}", e.to_string()),
    };
}

#[test]
fn test_parse_invalid_operator() {
    let input_line = "do something";
    match Command::try_from(input_line) {
        Ok(_) => panic!("\"do something\" should not have successfully parsed"),
        Err(e) => assert_eq!(e.to_string(), "synatx error: invalid operator: do"),
    };
}

#[test]
fn test_whitespace_removal() {
    let input_lines: Vec<String> = vec![
        "// copyright: acme industries".into(),
        "".into(),
        "   ".into(),
        "push constant 1".into(),
        "push constant 3 // pushes the constant 3".into(),
    ];

    let expected_output_lines: Vec<String> =
        vec!["push constant 1".into(), "push constant 3".into()];

    let t = Translator::new(input_lines.iter().map(|l| Some(l.clone())).collect()).unwrap();

    assert_eq!(*t.lines(), expected_output_lines);
}

#[test]
fn every_operation_parses() {
    let table = [
        ("add", Command::Add),
        ("sub", Command::Sub),
        ("neg", Command::Neg),
        ("eq", Command::Eq),
        ("gt", Command::Gt),
        ("lt", Command::Lt),
        ("and", Command::And),
        ("or", Command::Or),
        ("not", Command::Not),
        ("push constant 0", Command::Push(0)),
        ("push constant 4294967295", Command::Push(4294967295)),
        ("push constant +17", Command::Push(17)),
        ("push constant 007", Command::Push(7)),
    ];
    for (line, command) in table {
        assert_eq!(Command::try_from(line).unwrap(), command);
    }
}

#[test]
fn words_are_split_at_any_white_space_and_further_words_ignored() {
    assert_eq!(Command::try_from("   add   ").unwrap(), Command::Add);
    assert_eq!(Command::try_from("\tsub\n").unwrap(), Command::Sub);
    assert_eq!(Command::try_from("neg and more words").unwrap(), Command::Neg);
    assert_eq!(
        Command::try_from(" push\tconstant \u{2003} 12   trailing").unwrap(),
        Command::Push(12)
    );
}

#[test]
fn push_errors() {
    let e = Command::try_from("push").err().unwrap();
    assert!(matches!(e, SyntaxError::MissingSegment));
    assert_eq!(e.to_string(), "syntax error: expected more after \"push\"");
    let e = Command::try_from("push local 3").err().unwrap();
    assert!(matches!(e, SyntaxError::ExpectedConstant));
    assert_eq!(e.to_string(), "syntax error: expected \"constant\" after push");
    let e = Command::try_from("push constant").err().unwrap();
    assert!(matches!(e, SyntaxError::MissingConstant));
    assert_eq!(
        e.to_string(),
        "syntax error: expected constant after \"push constant\""
    );
    let e = Command::try_from("push constant x1").err().unwrap();
    assert!(matches!(e, SyntaxError::InvalidConstant(NumberError::InvalidDigit)));
    assert_eq!(e.to_string(), "invalid digit found in string");
    let e = Command::try_from("push constant -1").err().unwrap();
    assert!(matches!(e, SyntaxError::InvalidConstant(NumberError::InvalidDigit)));
    let e = Command::try_from("push constant 4294967296").err().unwrap();
    assert!(matches!(e, SyntaxError::InvalidConstant(NumberError::Overflow)));
    assert_eq!(e.to_string(), "number too large to fit in target type");
}

#[test]
fn operators_are_case_sensitive_and_whole_words() {
    for line in ["Add", "adds", "pushconstant 1", "ad d"] {
        match Command::try_from(line) {
            Err(SyntaxError::InvalidOperator(_)) => (),
            _ => panic!("{} should name no operation", line),
        }
    }
    match Command::try_from("  pop local 2") {
        Err(SyntaxError::InvalidOperator(word)) => assert_eq!(word, "pop"),
        _ => panic!("expected an invalid operator"),
    }
}

#[test]
fn push_writes_seven_lines() {
    assert_eq!(
        Command::Push(42).to_asm(0),
        "@42\nD=A\n@SP\nA=M\nM=D\n@SP\nM=M+1"
    );
    assert_eq!(
        Command::Push(4294967295).to_asm(9),
        "@4294967295\nD=A\n@SP\nA=M\nM=D\n@SP\nM=M+1"
    );
    assert_eq!(
        Command::Push(0).to_asm(9),
        "@0\nD=A\n@SP\nA=M\nM=D\n@SP\nM=M+1"
    );
}

#[test]
fn binary_operations_write_ten_lines() {
    let table = [
        (Command::Add, "M=M+D"),
        (Command::Sub, "M=M-D"),
        (Command::And, "M=M&D"),
        (Command::Or, "M=M|D"),
    ];
    for (command, operation) in table {
        assert_eq!(
            command.to_asm(5),
            format!(
                "@SP\nM=M-1\nA=M\nD=M\n@SP\nM=M-1\nA=M\n{}\n@SP\nM=M+1",
                operation
            )
        );
    }
}

#[test]
fn unary_operations_write_six_lines() {
    assert_eq!(Command::Neg.to_asm(1), "@SP\nM=M-1\nA=M\nM=-M\n@SP\nM=M+1");
    assert_eq!(Command::Not.to_asm(1), "@SP\nM=M-1\nA=M\nM=!M\n@SP\nM=M+1");
}

fn comparison(name: &str, jump: &str, id: &str) -> String {
    format!(
        "@SP\nM=M-1\nA=M\nD=M\n@SP\nM=M-1\nA=M\nD=M-D\n@{name}:{id}\n{jump}\n@0\nD=A\n@SP\nA=M\nM=D\n@END:{id}\n0;JMP\n({name}:{id})\n@1\nD=-A\n@SP\nA=M\nM=D\n(END:{id})\n@SP\nM=M+1",
        name = name,
        jump = jump,
        id = id
    )
}

#[test]
fn comparisons_write_labels_that_end_in_the_id() {
    assert_eq!(Command::Eq.to_asm(0), comparison("EQUAL", "D;JEQ", "0"));
    assert_eq!(Command::Gt.to_asm(7), comparison("GREATERTHAN", "D;JGT", "7"));
    assert_eq!(Command::Lt.to_asm(1234), comparison("LESSTHAN", "D;JLT", "1234"));
    assert_eq!(
        Command::Eq.to_asm(usize::MAX),
        comparison("EQUAL", "D;JEQ", &usize::MAX.to_string())
    );
    assert_ne!(Command::Eq.to_asm(1), Command::Eq.to_asm(2));
}

#[test]
fn kinds_parse_like_commands() {
    let table = [
        ("add", parser::CommandType::Add),
        ("sub", parser::CommandType::Sub),
        ("neg", parser::CommandType::Neg),
        ("eq", parser::CommandType::Eq),
        ("gt", parser::CommandType::Gt),
        ("lt", parser::CommandType::Lt),
        ("and", parser::CommandType::And),
        ("or", parser::CommandType::Or),
        ("not", parser::CommandType::Not),
        ("push constant 42", parser::CommandType::Push(42)),
    ];
    for (line, kind) in table {
        assert_eq!(parser::CommandType::try_from(line).unwrap(), kind);
        assert_eq!(parser::Command::try_from(line).unwrap().kind(), kind);
    }
}

#[test]
fn kind_errors_keep_the_whole_line_for_an_unknown_operation() {
    let e = parser::CommandType::try_from("do something").err().unwrap();
    assert_eq!(e.to_string(), "Invalid operator: do something");
    match parser::Command::try_from("  pop local 2") {
        Err(SyntaxError::InvalidCommand(line)) => assert_eq!(line, "  pop local 2"),
        _ => panic!("expected an invalid command"),
    }
    let e = parser::CommandType::try_from("").err().unwrap();
    assert_eq!(e.to_string(), "syntax error: expected operator token");
    let e = parser::CommandType::try_from("push").err().unwrap();
    assert!(matches!(e, SyntaxError::MissingSegment));
    let e = parser::CommandType::try_from("push constant 1x").err().unwrap();
    assert!(matches!(e, SyntaxError::InvalidConstant(NumberError::InvalidDigit)));
}

#[test]
fn lines_are_cleaned_of_comments_and_outer_white_space() {
    assert_eq!(clean_line("  push constant 3   // three"), "push constant 3");
    assert_eq!(clean_line("add//"), "add");
    assert_eq!(clean_line("// add"), "");
    assert_eq!(clean_line("\t \u{a0}"), "");
    assert_eq!(clean_line("push   constant\t1"), "push   constant\t1");
    assert_eq!(clean_line("a / b"), "a / b");
    assert_eq!(clean_line("a / / b"), "a / / b");
}

#[test]
fn a_line_that_is_no_text_fails_the_whole_input() {
    let r = Translator::new(vec![Some("add".to_string()), None, Some("sub".to_string())]);
    match r {
        Err(e) => {
            assert_eq!(e, ConversionError {});
            assert_eq!(e.to_string(), "failed to convert input iterable to string");
        }
        Ok(_) => panic!("expected a conversion error"),
    }
    assert!(Translator::new(Vec::new()).unwrap().lines().is_empty());
}

#[test]
fn output_parses_every_line_or_reports_the_first_error() {
    let input = vec![
        Some("push constant 2 // two".to_string()),
        Some("".to_string()),
        Some("  push constant 3".to_string()),
        Some("add".to_string()),
    ];
    let commands = Translator::new(input).unwrap().output().unwrap();
    let kinds: Vec<parser::CommandType> = commands.iter().map(|c| c.kind()).collect();
    assert_eq!(
        kinds,
        vec![
            parser::CommandType::Push(2),
            parser::CommandType::Push(3),
            parser::CommandType::Add
        ]
    );
    let input = vec![
        Some("add".to_string()),
        Some("push local 1".to_string()),
        Some("frobnicate".to_string()),
    ];
    let e = Translator::new(input).unwrap().output().err().unwrap();
    assert!(matches!(e, SyntaxError::ExpectedConstant));
}

#[test]
fn translate_writes_each_command_with_the_index_of_its_line() {
    let input = vec![
        Some("// adds two numbers and compares".to_string()),
        Some("push constant 7".to_string()),
        Some("push constant 8 // eight".to_string()),
        Some("add".to_string()),
        Some("".to_string()),
        Some("push constant 15".to_string()),
        Some("eq".to_string()),
        Some("  gt".to_string()),
    ];
    let text = Translator::new(input).unwrap().translate().unwrap();
    let expected = vec![
        Command::Push(7).to_asm(0),
        Command::Push(8).to_asm(1),
        Command::Add.to_asm(2),
        Command::Push(15).to_asm(3),
        Command::Eq.to_asm(4),
        Command::Gt.to_asm(5),
    ]
    .join("\n");
    assert_eq!(text, expected);
    assert!(text.contains("(EQUAL:4)"));
    assert!(text.contains("(END:4)"));
    assert!(text.contains("(GREATERTHAN:5)"));
    assert!(text.contains("(END:5)"));
    assert_eq!(Translator::new(Vec::new()).unwrap().translate().unwrap(), "");
}

#[test]
fn translate_reports_the_first_line_that_names_no_command() {
    let input = vec![
        Some("add".to_string()),
        Some("pop local 1".to_string()),
        Some("push".to_string()),
    ];
    let e = Translator::new(input).unwrap().translate().err().unwrap();
    assert_eq!(e.to_string(), "synatx error: invalid operator: pop");
}
