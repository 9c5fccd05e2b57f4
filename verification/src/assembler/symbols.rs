//! The symbol table: label names bound to byte offsets in the program.
//!
//! Labels are bound during a pre-pass over the parsed instructions and
//! only read while encoding.  Binding a name twice is a fatal assembly
//! error; lookups report the offset of the earliest binding.

use vstd::prelude::*;

use crate::assembler::AssemblerError;
use crate::text::str_eq;

verus! {

/// One label binding: a name and the byte offset it stands for.
#[derive(Debug, Clone, PartialEq)]
pub struct Symbol {
    pub name: String,
    pub offset: u32,
}

/// The table of label bindings, in the order they were made.
#[derive(Debug, Clone, PartialEq)]
pub struct SymbolTable {
    pub symbols: Vec<Symbol>,
}

/// Whether some binding in `s` carries the name `name`.
pub open spec fn spec_contains_symbol(s: Seq<Symbol>, name: Seq<char>) -> bool {
    exists|i: int| 0 <= i < s.len() && s[i].name@ == name
}

/// The offset of the earliest binding of `name`, if any.
pub open spec fn spec_symbol_value(s: Seq<Symbol>, name: Seq<char>) -> Option<u32>
    decreases s.len(),
{
    if s.len() == 0 {
        None
    } else if s[0].name@ == name {
        Some(s[0].offset)
    } else {
        spec_symbol_value(s.drop_first(), name)
    }
}

impl SymbolTable {
    /// An empty table.
    pub fn new() -> (t: SymbolTable)
        ensures
            t.symbols@ == Seq::<Symbol>::empty(),
    {
        SymbolTable { symbols: Vec::new() }
    }

    /// Whether `name` is already bound.
    pub fn has_symbol(&self, name: &str) -> (r: bool)
        ensures
            r == spec_contains_symbol(self.symbols@, name@),
    {
        let mut i: usize = 0;
        while i < self.symbols.len()
            invariant
                i <= self.symbols@.len(),
                forall|j: int| 0 <= j < i ==> self.symbols@[j].name@ != name@,
            decreases self.symbols@.len() - i,
        {
            if str_eq(self.symbols[i].name.as_str(), name) {
                return true;
            }
            i += 1;
        }
        false
    }

    /// Bind `name` to `offset`; binding a name twice is a fatal
    /// assembly error that leaves the table unchanged.
    pub fn add_symbol(&mut self, name: String, offset: u32) -> (r: Result<(), AssemblerError>)
        ensures
            match r {
                Ok(_) => !spec_contains_symbol(old(self).symbols@, name@) && final(self).symbols@
                    == old(self).symbols@.push(Symbol { name, offset }),
                Err(e) => spec_contains_symbol(old(self).symbols@, name@) && e == (
                AssemblerError::DuplicateSymbol { name }) && *final(self) == *old(self),
            },
    {
        if self.has_symbol(name.as_str()) {
            return Err(AssemblerError::DuplicateSymbol { name });
        }
        self.symbols.push(Symbol { name, offset });
        Ok(())
    }

    /// The offset bound to `name`, if any.
    pub fn symbol_value(&self, name: &str) -> (r: Option<u32>)
        ensures
            r == spec_symbol_value(self.symbols@, name@),
    {
        let mut i: usize = 0;
        proof {
            assert(self.symbols@.skip(0) =~= self.symbols@);
        }
        while i < self.symbols.len()
            invariant
                i <= self.symbols@.len(),
                forall|j: int| 0 <= j < i ==> self.symbols@[j].name@ != name@,
                spec_symbol_value(self.symbols@, name@) == spec_symbol_value(
                    self.symbols@.skip(i as int),
                    name@,
                ),
            decreases self.symbols@.len() - i,
        {
            if str_eq(self.symbols[i].name.as_str(), name) {
                return Some(self.symbols[i].offset);
            }
            proof {
                assert(self.symbols@.skip(i as int).drop_first() =~= self.symbols@.skip(
                    i as int + 1,
                ));
            }
            i += 1;
        }
        proof {
            assert(self.symbols@.skip(i as int) =~= Seq::<Symbol>::empty());
        }
        None
    }
}

} // verus!
