//! The RISC-V adapter: construction-time validation is real, but the decode
//! operation is not implemented yet and always says so.

use std::convert::Infallible;
use vstd::prelude::*;

use crate::disasm::{DisasmError, Disassembler};
use crate::format::AssemblerOutput;
use crate::BitWidth;

verus! {

/// RISC-V disassembler.
#[derive(Debug)]
pub struct RiscV {
    width: BitWidth,
}

impl RiscV {
    /// The width this adapter was constructed for.
    pub closed spec fn spec_width(self) -> BitWidth {
        self.width
    }

    /// Whether this architecture supports the requested bit width.
    pub open spec fn width_supported(width: BitWidth) -> bool {
        width == BitWidth::Bit16 || width == BitWidth::Bit32
    }

    /// Constructs a new [`RiscV`] disassembler, validating its options: only
    /// the two narrow widths are accepted, anything else is a wrong bit
    /// width.
    pub fn new(width: BitWidth) -> (r: Result<Self, DisasmError<Infallible>>)
        ensures
            Self::width_supported(width) <==> (r matches Ok(d) && d.spec_width() == width),
            !Self::width_supported(width) <==> (r matches Err(e) && e == DisasmError::<
                Infallible,
            >::WrongBitWidth(width)),
    {
        match width {
            BitWidth::Bit16 | BitWidth::Bit32 => Ok(RiscV { width }),
            unsupported => Err(DisasmError::WrongBitWidth(unsupported)),
        }
    }
}

impl Disassembler for RiscV {
    type Error = Infallible;

    /// There is no underlying engine yet, so nothing can fault.
    open spec fn decode_ready(&self, bytes: Seq<u8>, options: AssemblerOutput) -> bool {
        true
    }

    /// The decode operation always fails with `Unimplemented`, regardless of
    /// the buffer and the options: the adapter exists but performs no work.
    fn disassemble(&self, bytes: &[u8], options: &AssemblerOutput) -> (r: Result<
        Vec<String>,
        DisasmError<Infallible>,
    >)
        ensures
            r matches Err(e) && e is Unimplemented,
    {
        Err(DisasmError::Unimplemented)
    }
}

} // verus!
