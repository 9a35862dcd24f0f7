use hack_toolchain::assembler::code::{comp_lookup, dest_lookup, jump_lookup};
use hack_toolchain::assembler::error::{AssemblyError, Field};

#[test]
fn destination_table() {
    let table = [
        ("", "000"),
        ("M", "001"),
        ("D", "010"),
        ("MD", "011"),
        ("A", "100"),
        ("AM", "101"),
        ("AD", "110"),
        ("AMD", "111"),
    ];
    for (mnemonic, bits) in table {
        assert_eq!(dest_lookup(mnemonic).unwrap(), bits);
    }
}

#[test]
fn jump_table() {
    let table = [
        ("", "000"),
        ("JGT", "001"),
        ("JEQ", "010"),
        ("JGE", "011"),
        ("JLT", "100"),
        ("JNE", "101"),
        ("JLE", "110"),
        ("JMP", "111"),
    ];
    for (mnemonic, bits) in table {
        assert_eq!(jump_lookup(mnemonic).unwrap(), bits);
    }
}

#[test]
fn computation_table() {
    let table = [
        ("0", "0101010"),
        ("1", "0111111"),
        ("-1", "0111010"),
        ("D", "0001100"),
        ("A", "0110000"),
        ("!D", "0001101"),
        ("!A", "0110001"),
        ("-D", "0001111"),
        ("-A", "0110011"),
        ("D+1", "0011111"),
        ("A+1", "0110111"),
        ("D-1", "0001110"),
        ("A-1", "0110010"),
        ("D+A", "0000010"),
        ("D-A", "0010011"),
        ("A-D", "0000111"),
        ("D&A", "0000000"),
        ("D|A", "0010101"),
        ("M", "1110000"),
        ("!M", "1110001"),
        ("-M", "1110011"),
        ("M+1", "1110111"),
        ("M-1", "1110010"),
        ("D+M", "1000010"),
        ("D-M", "1010011"),
        ("M-D", "1000111"),
        ("D&M", "1000000"),
        ("D|M", "1010101"),
    ];
    for (mnemonic, bits) in table {
        assert_eq!(comp_lookup(mnemonic).unwrap(), bits);
    }
}

#[test]
fn commutative_computations_take_either_order() {
    for (one, other) in [
        ("D+A", "A+D"),
        ("D&A", "A&D"),
        ("D|A", "A|D"),
        ("D+M", "M+D"),
        ("D&M", "M&D"),
        ("D|M", "M|D"),
    ] {
        assert_eq!(comp_lookup(one).unwrap(), comp_lookup(other).unwrap());
    }
    assert_ne!(comp_lookup("D-A").unwrap(), comp_lookup("A-D").unwrap());
    assert_ne!(comp_lookup("D-M").unwrap(), comp_lookup("M-D").unwrap());
}

#[test]
fn unknown_mnemonics_are_encoding_errors() {
    match dest_lookup("DM") {
        Err(AssemblyError::Encoding { field, mnemonic }) => {
            assert_eq!(field, Field::Dest);
            assert_eq!(mnemonic, "DM");
        }
        _ => panic!("expected an encoding error"),
    }
    match comp_lookup("") {
        Err(AssemblyError::Encoding { field, mnemonic }) => {
            assert_eq!(field, Field::Comp);
            assert_eq!(mnemonic, "");
        }
        _ => panic!("expected an encoding error"),
    }
    match comp_lookup("1+D") {
        Err(AssemblyError::Encoding { field, mnemonic }) => {
            assert_eq!(field, Field::Comp);
            assert_eq!(mnemonic, "1+D");
        }
        _ => panic!("expected an encoding error"),
    }
    match jump_lookup("JMP ") {
        Err(AssemblyError::Encoding { field, mnemonic }) => {
            assert_eq!(field, Field::Jump);
            assert_eq!(mnemonic, "JMP ");
        }
        _ => panic!("expected an encoding error"),
    }
}
