//! Output-formatting options for disassembly.

use std::collections::HashMap;
use vstd::prelude::*;

verus! {

/// Addresses options.
#[derive(Debug, Clone, Copy, PartialEq, Eq, Structural)]
pub enum ShowAddress {
    /// Show addresses with a provided offset.
    Start(usize),
    /// Do not show addresses.
    Omit,
}

impl Default for ShowAddress {
    /// Addresses are shown from zero by default.
    fn default() -> (r: Self)
        ensures
            r == ShowAddress::Start(0usize),
    {
        ShowAddress::Start(0)
    }
}

/// Defines a symbol scope.
#[derive(Debug, PartialEq, Eq, PartialOrd, Ord, Hash, Clone, Copy, Structural)]
pub enum Scope {
    Local,
    Global,
}

/// A symbol's attributes: its address and its visibility scope.
#[derive(Debug, PartialEq, Eq, PartialOrd, Ord, Hash, Clone, Copy, Structural)]
pub struct SymbolInfo {
    address: usize,
    scope: Scope,
}

impl SymbolInfo {
    /// The address this symbol stands at.
    pub closed spec fn spec_address(self) -> usize {
        self.address
    }

    /// The visibility scope of this symbol.
    pub closed spec fn spec_scope(self) -> Scope {
        self.scope
    }

    /// Constructs a new symbol.
    pub fn new(address: usize, scope: Scope) -> (r: Self)
        ensures
            r.spec_address() == address,
            r.spec_scope() == scope,
    {
        SymbolInfo { address, scope }
    }
}

/// Output disassembly formatting options.
///
/// Constructed through the builder methods and then treated as read-only
/// input to decoding; adapters never mutate it.
#[derive(Debug, Clone)]
pub struct AssemblerOutput {
    /// Show addresses.
    address: ShowAddress,
    /// Stop at address.
    stop_at: Option<usize>,
    /// Show instructions in the upper case.
    upper_case: bool,
    /// Show how many cycles the instruction takes.
    cycles: bool,
    /// Names for symbols.
    symbol_table: Option<HashMap<SymbolInfo, String>>,
}

impl AssemblerOutput {
    /// The configured address-display mode.
    pub closed spec fn spec_address(self) -> ShowAddress {
        self.address
    }

    /// The configured stop address, if any.
    pub closed spec fn spec_stop_at(self) -> Option<usize> {
        self.stop_at
    }

    /// Whether output is requested in upper case.
    pub closed spec fn spec_upper_case(self) -> bool {
        self.upper_case
    }

    /// Whether cycle counts are requested.
    pub closed spec fn spec_cycles(self) -> bool {
        self.cycles
    }

    /// Whether a symbol table was supplied.
    pub closed spec fn spec_has_symbol_table(self) -> bool {
        self.symbol_table is Some
    }

    /// Whether some requested option is unsupported by every current
    /// adapter: symbol substitution and cycle display are forward-declared
    /// features that each adapter rejects at entry today.
    pub open spec fn spec_rejected(self) -> bool {
        self.spec_has_symbol_table() || self.spec_cycles()
    }

    /// Show addresses in a disassembly output.
    pub fn with_addresses(self, address: ShowAddress) -> (r: Self)
        ensures
            r.spec_address() == address,
            r.spec_stop_at() == self.spec_stop_at(),
            r.spec_upper_case() == self.spec_upper_case(),
            r.spec_cycles() == self.spec_cycles(),
            r.spec_has_symbol_table() == self.spec_has_symbol_table(),
    {
        AssemblerOutput { address, ..self }
    }

    /// Choose case of a disassembly output.
    pub fn with_upper_case(self, capital: bool) -> (r: Self)
        ensures
            r.spec_address() == self.spec_address(),
            r.spec_stop_at() == self.spec_stop_at(),
            r.spec_upper_case() == capital,
            r.spec_cycles() == self.spec_cycles(),
            r.spec_has_symbol_table() == self.spec_has_symbol_table(),
    {
        AssemblerOutput { upper_case: capital, ..self }
    }

    /// Show cycles in a disassembly output.
    pub fn with_cycles(self, cycles: bool) -> (r: Self)
        ensures
            r.spec_address() == self.spec_address(),
            r.spec_stop_at() == self.spec_stop_at(),
            r.spec_upper_case() == self.spec_upper_case(),
            r.spec_cycles() == cycles,
            r.spec_has_symbol_table() == self.spec_has_symbol_table(),
    {
        AssemblerOutput { cycles, ..self }
    }

    /// Replace [`SymbolInfo`] with a name in a disassembly output.
    pub fn with_symbol_table(self, table: HashMap<SymbolInfo, String>) -> (r: Self)
        ensures
            r.spec_address() == self.spec_address(),
            r.spec_stop_at() == self.spec_stop_at(),
            r.spec_upper_case() == self.spec_upper_case(),
            r.spec_cycles() == self.spec_cycles(),
            r.spec_has_symbol_table(),
    {
        AssemblerOutput { symbol_table: Some(table), ..self }
    }

    /// Which address to stop at?
    pub fn with_stop(self, stop: usize) -> (r: Self)
        ensures
            r.spec_address() == self.spec_address(),
            r.spec_stop_at() == Some(stop),
            r.spec_upper_case() == self.spec_upper_case(),
            r.spec_cycles() == self.spec_cycles(),
            r.spec_has_symbol_table() == self.spec_has_symbol_table(),
    {
        AssemblerOutput { stop_at: Some(stop), ..self }
    }

    /// Show address?
    pub fn address(&self) -> (r: &ShowAddress)
        ensures
            *r == self.spec_address(),
    {
        &self.address
    }

    /// Which address to stop at?
    pub fn stop_at(&self) -> (r: Option<usize>)
        ensures
            r == self.spec_stop_at(),
    {
        self.stop_at
    }

    /// Use upper case?
    pub fn upper_case(&self) -> (r: bool)
        ensures
            r == self.spec_upper_case(),
    {
        self.upper_case
    }

    /// Show cycles?
    pub fn cycles(&self) -> (r: bool)
        ensures
            r == self.spec_cycles(),
    {
        self.cycles
    }

    /// Use symbol table?
    pub fn symbol_table(&self) -> (r: Option<&HashMap<SymbolInfo, String>>)
        ensures
            r is Some <==> self.spec_has_symbol_table(),
    {
        match &self.symbol_table {
            Some(table) => Some(table),
            None => None,
        }
    }
}

impl Default for AssemblerOutput {
    /// Addresses from zero, upper case, no cycles, no symbol table, no stop.
    fn default() -> (r: Self)
        ensures
            r.spec_address() == ShowAddress::Start(0usize),
            r.spec_stop_at() is None,
            r.spec_upper_case(),
            !r.spec_cycles(),
            !r.spec_has_symbol_table(),
    {
        AssemblerOutput {
            address: ShowAddress::Start(0),
            upper_case: true,
            cycles: false,
            symbol_table: None,
            stop_at: None,
        }
    }
}

} // verus!
