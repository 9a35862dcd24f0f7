use hack_toolchain::assembler::symbols::SymbolTable;

#[test]
fn test_add_new_variable() {
    let mut st = SymbolTable::new();
    let mem_location = st.add_symbol("counter", None);

    assert_eq!(mem_location, 16);

    assert_eq!(
        true,
        match st.get_symbol_address("counter") {
            Some(16) => true,
            _ => false,
        }
    );
}

#[test]
fn predefined_symbols_are_bound_from_the_start() {
    let st = SymbolTable::new();
    for i in 0..16u32 {
        assert_eq!(st.get_symbol_address(&format!("R{}", i)), Some(i));
    }
    assert_eq!(st.get_symbol_address("SP"), Some(0));
    assert_eq!(st.get_symbol_address("LCL"), Some(1));
    assert_eq!(st.get_symbol_address("ARG"), Some(2));
    assert_eq!(st.get_symbol_address("THIS"), Some(3));
    assert_eq!(st.get_symbol_address("THAT"), Some(4));
    assert_eq!(st.get_symbol_address("SCREEN"), Some(16384));
    assert_eq!(st.get_symbol_address("KBD"), Some(24576));
    assert_eq!(st.get_symbol_address("R16"), None);
    assert_eq!(st.get_symbol_address("sp"), None);
    assert_eq!(st.get_symbol_address(""), None);
    assert!(st.contains("R15"));
    assert!(!st.contains("counter"));
    assert_eq!(st.next_variable(), 16);
}

#[test]
fn binding_overwrites_and_leaves_the_variable_counter() {
    let mut st = SymbolTable::new();
    assert_eq!(st.add_symbol("LOOP", Some(7)), 7);
    assert_eq!(st.get_symbol_address("LOOP"), Some(7));
    assert_eq!(st.add_symbol("LOOP", Some(9)), 9);
    assert_eq!(st.get_symbol_address("LOOP"), Some(9));
    assert_eq!(st.add_symbol("SP", Some(100)), 100);
    assert_eq!(st.get_symbol_address("SP"), Some(100));
    assert_eq!(st.next_variable(), 16);
}

#[test]
fn new_variables_take_addresses_in_order() {
    let mut st = SymbolTable::new();
    assert_eq!(st.add_symbol("x", None), 16);
    assert_eq!(st.add_symbol("y", None), 17);
    assert_eq!(st.add_symbol("x", None), 16);
    assert_eq!(st.get_symbol_address("x"), Some(16));
    assert_eq!(st.get_symbol_address("y"), Some(17));
    assert_eq!(st.next_variable(), 18);
    assert_eq!(st.add_symbol("z", None), 18);
    assert_eq!(st.next_variable(), 19);
}

#[test]
fn a_bound_name_used_as_a_variable_keeps_its_address() {
    let mut st = SymbolTable::new();
    assert_eq!(st.add_symbol("SCREEN", None), 16384);
    assert_eq!(st.add_symbol("R5", None), 5);
    st.add_symbol("LOOP", Some(3));
    assert_eq!(st.add_symbol("LOOP", None), 3);
    assert_eq!(st.next_variable(), 16);
    assert_eq!(st.add_symbol("first", None), 16);
}

#[test]
fn allocate_variable_keeps_a_bound_name() {
    let mut st = SymbolTable::new();
    assert_eq!(st.allocate_variable("x"), 16);
    assert_eq!(st.allocate_variable("y"), 17);
    assert_eq!(st.allocate_variable("x"), 16);
    assert_eq!(st.next_variable(), 18);
    assert_eq!(st.allocate_variable("SCREEN"), 16384);
    assert_eq!(st.allocate_variable("R3"), 3);
    assert_eq!(st.next_variable(), 18);
    st.add_symbol("END", Some(42));
    assert_eq!(st.allocate_variable("END"), 42);
    assert_eq!(st.allocate_variable("z"), 18);
}
