//! A pluggable, architecture-agnostic disassembly library.
//!
//! Given a byte buffer, a target instruction-set width and a set of
//! output-formatting options, each architecture adapter produces a sequence
//! of human-readable instruction lines, or fails with a classified error.

use vstd::prelude::*;

pub mod disasm;
pub mod format;
pub mod mos6502;
pub mod risc_v;
pub mod text;
pub mod x86;

pub use disasm::{DisasmError, Disassembler, ResponseClass};
pub use format::{AssemblerOutput, Scope, ShowAddress, SymbolInfo};

verus! {

/// Architecture bit width.
#[derive(Debug, Clone, Copy, PartialEq, Eq, Structural)]
pub enum BitWidth {
    Bit8,
    Bit16,
    Bit32,
    Bit64,
}

impl BitWidth {
    /// The numeric bit count this width stands for.
    pub open spec fn spec_bits(self) -> u8 {
        match self {
            BitWidth::Bit8 => 8,
            BitWidth::Bit16 => 16,
            BitWidth::Bit32 => 32,
            BitWidth::Bit64 => 64,
        }
    }

    /// Returns the numeric bit count this width stands for.
    pub fn bits(&self) -> (b: u8)
        ensures
            b == self.spec_bits(),
    {
        match self {
            BitWidth::Bit8 => 8,
            BitWidth::Bit16 => 16,
            BitWidth::Bit32 => 32,
            BitWidth::Bit64 => 64,
        }
    }

    /// A human-readable label for this width.
    pub fn text(&self) -> (s: &'static str)
        ensures
            self == BitWidth::Bit8 ==> s@ == "8 bit"@,
            self == BitWidth::Bit16 ==> s@ == "16 bit"@,
            self == BitWidth::Bit32 ==> s@ == "32 bit"@,
            self == BitWidth::Bit64 ==> s@ == "64 bit"@,
    {
        match self {
            BitWidth::Bit8 => "8 bit",
            BitWidth::Bit16 => "16 bit",
            BitWidth::Bit32 => "32 bit",
            BitWidth::Bit64 => "64 bit",
        }
    }
}

} // verus!

