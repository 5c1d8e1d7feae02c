//! The disassembly capability contract and the shared error taxonomy.

use vstd::prelude::*;
use vstd::string::StringExecFns;

use crate::format::AssemblerOutput;
use crate::BitWidth;

verus! {

/// A general disassembler architecture endpoint error, over an
/// architecture-specific error type `E`.
#[derive(Debug)]
pub enum DisasmError<E> {
    /// Some requested option is not supported by the target adapter.
    UnsupportedOption,
    /// The decode operation itself is not implemented for this architecture.
    Unimplemented,
    /// A required piece of construction information was absent.
    MissingInfo,
    /// The requested bit width is not among the widths this architecture
    /// supports.
    WrongBitWidth(BitWidth),
    /// An architecture-specific failure surfaced by the underlying engine.
    Arch(E),
}

/// The response category a [`DisasmError`] is classified into at the
/// boundary. An architecture-specific error carries its own classification
/// instead.
#[derive(Debug, Clone, Copy, PartialEq, Eq, Structural)]
pub enum ResponseClass {
    /// The requested work is not implemented.
    NotImplemented,
    /// The request itself was invalid.
    BadRequest,
}

impl<E> DisasmError<E> {
    /// Classifies this error for the boundary layer: unsupported options and
    /// unimplemented operations are "not implemented", a wrong bit width and
    /// missing construction information are "bad request", and an
    /// architecture-specific error is left to its own classification.
    pub fn response_class(&self) -> (r: Option<ResponseClass>)
        ensures
            match self {
                DisasmError::UnsupportedOption | DisasmError::Unimplemented => r == Some(
                    ResponseClass::NotImplemented,
                ),
                DisasmError::WrongBitWidth(_) | DisasmError::MissingInfo => r == Some(
                    ResponseClass::BadRequest,
                ),
                DisasmError::Arch(_) => r is None,
            },
    {
        match self {
            DisasmError::UnsupportedOption | DisasmError::Unimplemented => Some(
                ResponseClass::NotImplemented,
            ),
            DisasmError::WrongBitWidth(_) | DisasmError::MissingInfo => Some(
                ResponseClass::BadRequest,
            ),
            DisasmError::Arch(_) => None,
        }
    }

    /// The human-readable description of this error, to be surfaced verbatim
    /// to the caller. An architecture-specific error describes itself
    /// instead.
    pub fn message(&self) -> (r: Option<String>)
        ensures
            match self {
                DisasmError::UnsupportedOption => r matches Some(m) && m@
                    == "Unsupported disassembler option"@,
                DisasmError::Unimplemented => r matches Some(m) && m@
                    == "The implementation has not been done"@,
                DisasmError::MissingInfo => r matches Some(m) && m@
                    == "Missing disassembler option"@,
                DisasmError::WrongBitWidth(w) => r matches Some(m) && m@
                    == "Invalid architecture bit width: "@ + width_label(*w),
                DisasmError::Arch(_) => r is None,
            },
    {
        match self {
            DisasmError::UnsupportedOption => Some(
                String::from_str("Unsupported disassembler option"),
            ),
            DisasmError::Unimplemented => Some(
                String::from_str("The implementation has not been done"),
            ),
            DisasmError::MissingInfo => Some(String::from_str("Missing disassembler option")),
            DisasmError::WrongBitWidth(w) => {
                let mut m = String::from_str("Invalid architecture bit width: ");
                m.append(w.text());
                Some(m)
            },
            DisasmError::Arch(_) => None,
        }
    }
}

/// The label a [`BitWidth`] renders as inside an error description.
pub open spec fn width_label(w: BitWidth) -> Seq<char> {
    match w {
        BitWidth::Bit8 => "8 bit"@,
        BitWidth::Bit16 => "16 bit"@,
        BitWidth::Bit32 => "32 bit"@,
        BitWidth::Bit64 => "64 bit"@,
    }
}

/// An abstraction over different disassemblers: any architecture adapter
/// implements this one operation, taking a byte buffer and an
/// [`AssemblerOutput`] and returning formatted lines or a typed error.
pub trait Disassembler {
    /// A specific disassembler error.
    type Error;

    /// Whether the underlying engine decodes `bytes` without fault under
    /// `options`; adapters whose engine is total leave this `true`.
    spec fn decode_ready(&self, bytes: Seq<u8>, options: AssemblerOutput) -> bool;

    /// Performs a disassembly operation on `bytes` with given `options`.
    fn disassemble(&self, bytes: &[u8], options: &AssemblerOutput) -> (r: Result<
        Vec<String>,
        DisasmError<Self::Error>,
    >)
        requires
            self.decode_ready(bytes@, *options),
    ;
}

/// How many leading entries of `s` satisfy `keep` before the first one that
/// does not: decoding stops scanning at the first entry outside the stop
/// boundary.
pub open spec fn stop_cut<T>(s: Seq<T>, keep: spec_fn(T) -> bool) -> int
    decreases s.len(),
{
    if s.len() == 0 || !keep(s[0]) {
        0
    } else {
        1 + stop_cut(s.drop_first(), keep)
    }
}

/// The cut lies within the sequence, everything before it is kept, and the
/// entry at the cut (if any) is the first one dropped.
pub proof fn lemma_stop_cut_props<T>(s: Seq<T>, keep: spec_fn(T) -> bool)
    ensures
        0 <= stop_cut(s, keep) <= s.len(),
        forall|i: int| 0 <= i < stop_cut(s, keep) ==> keep(#[trigger] s[i]),
        stop_cut(s, keep) < s.len() ==> !keep(s[stop_cut(s, keep)]),
    decreases s.len(),
{
    if s.len() == 0 || !keep(s[0]) {
    } else {
        lemma_stop_cut_props(s.drop_first(), keep);
        let c = stop_cut(s, keep);
        assert forall|i: int| 0 <= i < c implies keep(#[trigger] s[i]) by {
            if i >= 1 {
                assert(s.drop_first()[i - 1] == s[i]);
            }
        }
        if c < s.len() {
            assert(s.drop_first()[c - 1] == s[c]);
        }
    }
}

/// A prefix index with exactly these properties is the cut: there is only
/// one place where scanning can stop.
pub proof fn lemma_stop_cut_unique<T>(s: Seq<T>, keep: spec_fn(T) -> bool, n: int)
    requires
        0 <= n <= s.len(),
        forall|i: int| 0 <= i < n ==> keep(#[trigger] s[i]),
        n < s.len() ==> !keep(s[n]),
    ensures
        stop_cut(s, keep) == n,
    decreases s.len(),
{
    if s.len() == 0 {
    } else if n == 0 {
    } else {
        assert(keep(s[0]));
        assert forall|i: int| 0 <= i < n - 1 implies keep(#[trigger] s.drop_first()[i]) by {
            assert(s.drop_first()[i] == s[i + 1]);
        }
        if n - 1 < s.drop_first().len() {
            assert(s.drop_first()[n - 1] == s[n]);
        }
        lemma_stop_cut_unique(s.drop_first(), keep, n - 1);
    }
}

} // verus!
