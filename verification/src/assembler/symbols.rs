//! The symbol table: which address each name stands for, and which address
//! the next new variable gets.

use crate::text::decimal::{decimal, push_decimal};
use vstd::hash_map::StringHashMap;
use vstd::prelude::*;
use vstd::string::StringExecFns;

verus! {

/// The address that the first variable of a program gets.
pub const FIRST_VARIABLE: u32 = 16;

/// What a symbol table holds: the address bound to each name, and the
/// address that the next new variable will get.
pub struct Symbols {
    pub bound: Map<Seq<char>, u32>,
    pub next: u32,
}

impl Symbols {
    /// The address bound to `name`, if any.
    pub open spec fn lookup(self, name: Seq<char>) -> Option<u32> {
        if self.bound.contains_key(name) {
            Some(self.bound[name])
        } else {
            None
        }
    }

    /// The table with `name` bound to `address`, whatever it was bound to.
    pub open spec fn bind(self, name: Seq<char>, address: u32) -> Symbols {
        Symbols { bound: self.bound.insert(name, address), next: self.next }
    }

    /// The table with a new variable `name`: the name is bound to the next
    /// variable address, and that address is used up.
    pub open spec fn allocate(self, name: Seq<char>) -> Symbols {
        Symbols { bound: self.bound.insert(name, self.next), next: (self.next + 1) as u32 }
    }

    /// The address that `name` stands for when used as a variable: the one
    /// it is bound to, or else the next variable address.
    pub open spec fn variable_address(self, name: Seq<char>) -> u32 {
        if self.bound.contains_key(name) {
            self.bound[name]
        } else {
            self.next
        }
    }

    /// The table after `name` was used as a variable: unchanged when the
    /// name is bound, and with a new variable for it when not.
    pub open spec fn with_variable(self, name: Seq<char>) -> Symbols {
        if self.bound.contains_key(name) {
            self
        } else {
            self.allocate(name)
        }
    }
}

/// The name of general register `i`: the letter `R` and the decimal numeral
/// of `i`.
pub open spec fn register_name(i: nat) -> Seq<char> {
    "R"@ + decimal(i)
}

/// The first `n` general registers, each bound to its own number.
pub open spec fn registers(n: nat) -> Map<Seq<char>, u32>
    decreases n,
{
    if n == 0 {
        Map::empty()
    } else {
        registers((n - 1) as nat).insert(register_name((n - 1) as nat), (n - 1) as u32)
    }
}

/// The names that every program may use without defining them: the
/// sixteen general registers, the five pointers, which share the addresses
/// of the first five registers, and the two memory-mapped devices.
pub open spec fn predefined() -> Map<Seq<char>, u32> {
    registers(16).insert("SP"@, 0).insert("LCL"@, 1).insert("ARG"@, 2).insert("THIS"@, 3).insert(
        "THAT"@,
        4,
    ).insert("SCREEN"@, 16384).insert("KBD"@, 24576)
}

/// The table before any line of a program is read.
pub open spec fn initial_symbols() -> Symbols {
    Symbols { bound: predefined(), next: FIRST_VARIABLE }
}

/// Maps names to addresses and hands out variable addresses in order.
pub struct SymbolTable {
    s: StringHashMap<u32>,
    variable_offset_counter: u32,
}

impl View for SymbolTable {
    type V = Symbols;

    closed spec fn view(&self) -> Symbols {
        Symbols { bound: self.s@, next: self.variable_offset_counter }
    }
}

impl SymbolTable {
    /// A table that holds the predefined names only.
    pub fn new() -> (table: SymbolTable)
        ensures
            table@ == initial_symbols(),
    {
        let mut table: StringHashMap<u32> = StringHashMap::new();
        let mut idx: u32 = 0;
        while idx < 16
            invariant
                idx <= 16,
                table@ == registers(idx as nat),
            decreases 16 - idx,
        {
            let mut name = String::from_str("R");
            push_decimal(&mut name, idx as u64);
            table.insert(name, idx);
            idx += 1;
        }
        table.insert(String::from_str("SP"), 0);
        table.insert(String::from_str("LCL"), 1);
        table.insert(String::from_str("ARG"), 2);
        table.insert(String::from_str("THIS"), 3);
        table.insert(String::from_str("THAT"), 4);
        table.insert(String::from_str("SCREEN"), 16384);
        table.insert(String::from_str("KBD"), 24576);
        SymbolTable { s: table, variable_offset_counter: FIRST_VARIABLE }
    }

    /// Binds `symbol` and returns its address. With an address given, the
    /// symbol is bound to it, whatever it was bound to. With none, the symbol
    /// is used as a variable: a bound symbol keeps its address and the table
    /// stays as it is; a symbol not yet bound is bound to the next variable
    /// address, which is used up.
    pub fn add_symbol(&mut self, symbol: &str, mem_location: Option<u32>) -> (address: u32)
        requires
            mem_location is None ==> old(self)@.bound.contains_key(symbol@) || old(self)@.next
                < u32::MAX,
        ensures
            match mem_location {
                Some(given) => address == given && final(self)@ == old(self)@.bind(symbol@, given),
                None => address == old(self)@.variable_address(symbol@) && final(self)@ == old(
                    self,
                )@.with_variable(symbol@),
            },
    {
        if let Some(mem_idx) = mem_location {
            self.s.insert(String::from_str(symbol), mem_idx);
            return mem_idx;
        }
        if let Some(bound) = self.get_symbol_address(symbol) {
            return bound;
        }
        self.s.insert(String::from_str(symbol), self.variable_offset_counter);
        self.variable_offset_counter += 1;
        self.variable_offset_counter - 1
    }

    /// The address bound to `symbol`, if any.
    pub fn get_symbol_address(&self, symbol: &str) -> (address: Option<u32>)
        ensures
            address == self@.lookup(symbol@),
    {
        match self.s.get(symbol) {
            Some(v) => Some(*v),
            None => None,
        }
    }

    /// Whether `symbol` is bound.
    pub fn contains(&self, symbol: &str) -> (bound: bool)
        ensures
            bound == self@.bound.contains_key(symbol@),
    {
        match self.get_symbol_address(symbol) {
            Some(_) => true,
            None => false,
        }
    }

    /// The address that the next new variable will get.
    pub fn next_variable(&self) -> (address: u32)
        ensures
            address == self@.next,
    {
        self.variable_offset_counter
    }

    /// The address of `name` used as a variable. A bound name keeps its
    /// address and the table stays as it is; a name not yet bound becomes a
    /// new variable at the next variable address.
    pub fn allocate_variable(&mut self, name: &str) -> (address: u32)
        requires
            old(self)@.bound.contains_key(name@) || old(self)@.next < u32::MAX,
        ensures
            address == old(self)@.variable_address(name@),
            final(self)@ == old(self)@.with_variable(name@),
    {
        self.add_symbol(name, None)
    }
}

} // verus!
