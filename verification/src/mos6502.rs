//! The MOS 6502 adapter: a fixed 8-bit architecture decoded by an external
//! fixed-table engine, with two addressing-display sub-modes.

use std::convert::Infallible;
use vstd::prelude::*;

use crate::disasm::{lemma_stop_cut_props, lemma_stop_cut_unique, stop_cut, DisasmError,
    Disassembler};
use crate::format::{AssemblerOutput, ShowAddress};
use crate::text::{ascii_lower, chop_line, lower_seq, strip_last};

verus! {

/// MOS6502 disassembler.
#[derive(Debug)]
pub struct Mos6502;

/// What the engine's opcode table holds for one opcode byte: the byte
/// length of the instruction it starts, or nothing for an undefined byte.
pub uninterp spec fn mos_op_len(b: u8) -> Option<u8>;

/// Relies on rs6502::OpCode::from_raw_byte: the opcode-table lookup for one
/// byte; every entry's length in that table is between one and three.
#[verifier::external_body]
fn op_len(b: u8) -> (r: Option<u8>)
    ensures
        r == mos_op_len(b),
        r matches Some(l) ==> 1 <= l <= 3,
{
    rs6502::OpCode::from_raw_byte(b).map(|op| op.length)
}

/// Where decoding continues after the instruction starting at `i`: one byte
/// past an undefined opcode, else the instruction's table length onward.
pub open spec fn mos_adv(b: u8) -> int {
    match mos_op_len(b) {
        Some(l) => if l < 1 {
            1
        } else {
            l as int
        },
        None => 1,
    }
}

/// The opcode bytes the engine's table renders in relative (branch)
/// addressing.
pub open spec fn mos_relative_op(b: u8) -> bool {
    b == 0x10 || b == 0x30 || b == 0x50 || b == 0x70 || b == 0x90 || b == 0xB0 || b == 0xD0 || b
        == 0xF0
}

/// Whether the engine walks `bytes` from position `i` to the end without
/// faulting when its code offset is `offset`: every instruction's operand
/// bytes lie inside the buffer, an indirect jump's operand plus the offset
/// stays within sixteen bits, and no branch displacement is one of the two
/// values whose back-target arithmetic faults in the engine.
pub open spec fn mos_safe_from(bytes: Seq<u8>, offset: u16, i: int) -> bool
    decreases bytes.len() - i,
{
    if i < 0 || i >= bytes.len() {
        true
    } else if mos_op_len(bytes[i]) is None {
        mos_safe_from(bytes, offset, i + 1)
    } else {
        &&& i + mos_adv(bytes[i]) <= bytes.len()
        &&& ((bytes[i] == 0x6C && i + 3 <= bytes.len()) ==> offset + bytes[i + 1] + 256 * bytes[i
            + 2] <= 0xFFFF)
        &&& ((mos_relative_op(bytes[i]) && i + 2 <= bytes.len()) ==> (bytes[i + 1] != 0x80 && bytes[
            i + 1] != 0xFF))
        &&& mos_safe_from(bytes, offset, i + mos_adv(bytes[i]))
    }
}

/// Whether the engine decodes all of `bytes` without faulting under code
/// offset `offset`.
pub open spec fn mos_safe(bytes: Seq<u8>, offset: u16) -> bool {
    mos_safe_from(bytes, offset, 0)
}

/// The engine's code offset under an address-display mode: the configured
/// start offset truncated to the architecture's native address width, or
/// zero when addresses are omitted.
pub open spec fn mos_offset(address: ShowAddress) -> u16 {
    match address {
        ShowAddress::Start(o) => o as u16,
        ShowAddress::Omit => 0,
    }
}

/// Recognizes the branch opcodes.
fn relative_op(b: u8) -> (r: bool)
    ensures
        r == mos_relative_op(b),
{
    b == 0x10 || b == 0x30 || b == 0x50 || b == 0x70 || b == 0x90 || b == 0xB0 || b == 0xD0 || b
        == 0xF0
}

/// Decides [`mos_safe`] for a buffer: walks the buffer exactly as the
/// engine will, consulting the same opcode table.
pub fn engine_accepts(bytes: &[u8], offset: u16) -> (b: bool)
    ensures
        b == mos_safe(bytes@, offset),
{
    let n = bytes.len();
    let mut i: usize = 0;
    while i < n
        invariant
            0 <= i <= n,
            n == bytes@.len(),
            mos_safe(bytes@, offset) <==> mos_safe_from(bytes@, offset, i as int),
        decreases n - i,
    {
        match op_len(bytes[i]) {
            None => {
                i = i + 1;
            },
            Some(l) => {
                let adv: usize = if l < 1 {
                    1
                } else {
                    l as usize
                };
                if adv > n - i {
                    assert(!mos_safe_from(bytes@, offset, i as int));
                    return false;
                }
                if bytes[i] == 0x6C && n - i >= 3 {
                    let target: u32 = bytes[i + 1] as u32 + 256 * (bytes[i + 2] as u32);
                    if offset as u32 + target > 0xFFFF {
                        assert(!mos_safe_from(bytes@, offset, i as int));
                        return false;
                    }
                }
                if relative_op(bytes[i]) && n - i >= 2 {
                    let displacement = bytes[i + 1];
                    if displacement == 0x80 || displacement == 0xFF {
                        assert(!mos_safe_from(bytes@, offset, i as int));
                        return false;
                    }
                }
                i = i + adv;
            },
        }
    }
    true
}

/// Everything the engine renders for `bytes` when addresses are shown with
/// code offset `off`: one (line, instruction address) pair per decoded
/// instruction, in decode order.
pub uninterp spec fn mos_lines_offset(bytes: Seq<u8>, off: u16) -> Seq<(Seq<char>, u16)>;

/// Everything the engine renders for `bytes` in its code-only mode, where
/// no addresses or raw bytes are printed in the lines.
pub uninterp spec fn mos_lines_plain(bytes: Seq<u8>) -> Seq<(Seq<char>, u16)>;

/// Relies on rs6502::Disassembler::with_offset and
/// rs6502::Disassembler::disassemble_with_addresses: decodes the whole
/// buffer into (line, address) pairs; an empty buffer yields no pairs, and
/// the addresses are the instructions' byte positions, strictly increasing
/// while the buffer fits in the sixteen-bit address space.
#[verifier::external_body]
fn decode_with_offset(bytes: &[u8], off: u16) -> (r: Vec<(String, u16)>)
    requires
        mos_safe(bytes@, off),
    ensures
        r@.map_values(|p: (String, u16)| (p.0@, p.1)) == mos_lines_offset(bytes@, off),
        bytes@.len() == 0 ==> r@.len() == 0,
        bytes@.len() <= 0x10000 ==> forall|j: int, k: int|
            0 <= j < k < r@.len() ==> #[trigger] r@[j].1 < #[trigger] r@[k].1,
{
    rs6502::Disassembler::with_offset(off).disassemble_with_addresses(bytes)
}

/// Relies on rs6502::Disassembler::with_code_only and
/// rs6502::Disassembler::disassemble_with_addresses: as
/// [`decode_with_offset`], but lines carry no address or byte prefix and
/// the engine's code offset is zero.
#[verifier::external_body]
fn decode_plain(bytes: &[u8]) -> (r: Vec<(String, u16)>)
    requires
        mos_safe(bytes@, 0),
    ensures
        r@.map_values(|p: (String, u16)| (p.0@, p.1)) == mos_lines_plain(bytes@),
        bytes@.len() == 0 ==> r@.len() == 0,
        bytes@.len() <= 0x10000 ==> forall|j: int, k: int|
            0 <= j < k < r@.len() ==> #[trigger] r@[j].1 < #[trigger] r@[k].1,
{
    rs6502::Disassembler::with_code_only().disassemble_with_addresses(bytes)
}

/// The engine output selected by the address-display mode.
pub open spec fn mos_decoded(bytes: Seq<u8>, address: ShowAddress) -> Seq<(Seq<char>, u16)> {
    match address {
        ShowAddress::Omit => mos_lines_plain(bytes),
        ShowAddress::Start(o) => mos_lines_offset(bytes, o as u16),
    }
}

/// Whether an instruction at `addr` is kept under the stop option: this
/// adapter's stop boundary is inclusive, an instruction landing exactly on
/// it is still emitted.
pub open spec fn mos_keep(stop_at: Option<usize>, addr: u16) -> bool {
    match stop_at {
        Some(s) => addr as int <= s as int,
        None => true,
    }
}

/// One rendered line after post-processing: the engine's line terminator is
/// stripped, and the whole line is case folded when lower case is asked
/// for (upper case is the engine's native output).
pub open spec fn mos_line(raw: Seq<char>, upper: bool) -> Seq<char> {
    if upper {
        strip_last(raw)
    } else {
        lower_seq(strip_last(raw))
    }
}

/// Whether a decode's instruction addresses are strictly ascending.
pub open spec fn mos_ascending(dec: Seq<(Seq<char>, u16)>) -> bool {
    forall|j: int, k: int| 0 <= j < k < dec.len() ==> #[trigger] dec[j].1 < #[trigger] dec[k].1
}

/// The adapter's full output: the decoded pairs up to the stop boundary,
/// each post-processed.
pub open spec fn mos_output(bytes: Seq<u8>, options: AssemblerOutput) -> Seq<Seq<char>> {
    let dec = mos_decoded(bytes, options.spec_address());
    let keep = |p: (Seq<char>, u16)| mos_keep(options.spec_stop_at(), p.1);
    dec.take(stop_cut(dec, keep)).map_values(
        |p: (Seq<char>, u16)| mos_line(p.0, options.spec_upper_case()),
    )
}

impl Mos6502 {
    /// Validates the options, checks that the engine decodes `bytes`
    /// without fault, then disassembles: `None` exactly when the options
    /// pass but the engine would fault on this buffer.
    pub fn try_disassemble(&self, bytes: &[u8], options: &AssemblerOutput) -> (r: Option<
        Result<Vec<String>, DisasmError<Infallible>>,
    >)
        ensures
            r is Some <==> (options.spec_rejected() || mos_safe(
                bytes@,
                mos_offset(options.spec_address()),
            )),
            r matches Some(inner) ==> (options.spec_rejected() <==> (inner matches Err(e)
                && e is UnsupportedOption)),
            r matches Some(inner) ==> (!options.spec_rejected() ==> (inner matches Ok(lines)
                && lines@.map_values(|s: String| s@) == mos_output(bytes@, *options))),
    {
        if options.symbol_table().is_some() || options.cycles() {
            // Option validation comes before any decoding work: the engine
            // is never consulted for a rejected request.
            return Some(self.disassemble(bytes, options));
        }
        let offset: u16 = match *options.address() {
            ShowAddress::Start(o) => #[verifier::truncate] (o as u16),
            ShowAddress::Omit => 0,
        };
        if engine_accepts(bytes, offset) {
            Some(self.disassemble(bytes, options))
        } else {
            None
        }
    }
}

impl Disassembler for Mos6502 {
    /// The engine has no error type of its own: decode cannot fail.
    type Error = Infallible;

    /// The engine must walk the buffer without faulting — unless the
    /// options are rejected up front, in which case it is never consulted.
    open spec fn decode_ready(&self, bytes: Seq<u8>, options: AssemblerOutput) -> bool {
        options.spec_rejected() || mos_safe(bytes, mos_offset(options.spec_address()))
    }

    /// Decodes the whole buffer, keeps the instructions up to the inclusive
    /// stop boundary, strips each line's terminator and folds case. A
    /// symbol table or a cycle request is rejected before any decoding, and
    /// nothing else is ever rejected.
    fn disassemble(&self, bytes: &[u8], options: &AssemblerOutput) -> (r: Result<
        Vec<String>,
        DisasmError<Infallible>,
    >)
        ensures
            options.spec_rejected() <==> (r matches Err(e) && e is UnsupportedOption),
            !options.spec_rejected() ==> (r matches Ok(lines) && lines@.map_values(|s: String| s@)
                == mos_output(bytes@, *options)),
            (!options.spec_rejected() && bytes@.len() == 0) ==> (r matches Ok(lines) && lines@.len()
                == 0),
            (!options.spec_rejected() && bytes@.len() <= 0x10000) ==> mos_ascending(
                mos_decoded(bytes@, options.spec_address()),
            ),
    {
        if options.symbol_table().is_some() || options.cycles() {
            return Err(DisasmError::UnsupportedOption);
        }
        let raw: Vec<(String, u16)> = match *options.address() {
            ShowAddress::Omit => decode_plain(bytes),
            ShowAddress::Start(o) => decode_with_offset(bytes, #[verifier::truncate] (o as u16)),
        };
        let ghost dec = mos_decoded(bytes@, options.spec_address());
        let ghost keep = |p: (Seq<char>, u16)| mos_keep(options.spec_stop_at(), p.1);
        assert(raw@.map_values(|p: (String, u16)| (p.0@, p.1)) == dec);
        proof {
            if bytes@.len() <= 0x10000 {
                assert forall|j: int, k: int|
                    0 <= j < k < dec.len() implies #[trigger] dec[j].1 < #[trigger] dec[k].1 by {
                    assert(dec[j] == (raw@[j].0@, raw@[j].1));
                    assert(dec[k] == (raw@[k].0@, raw@[k].1));
                }
            }
        }

        // Find how many leading instructions the stop boundary keeps.
        let n = raw.len();
        let mut cut: usize = 0;
        match options.stop_at() {
            None => {
                cut = n;
                assert(forall|j: int| 0 <= j < cut ==> #[trigger] keep(dec[j]));
            },
            Some(s) => {
                while cut < n && raw[cut].1 as usize <= s
                    invariant
                        0 <= cut <= n,
                        n == raw@.len(),
                        raw@.map_values(|p: (String, u16)| (p.0@, p.1)) == dec,
                        keep == (|p: (Seq<char>, u16)| mos_keep(Some(s), p.1)),
                        forall|j: int| 0 <= j < cut ==> #[trigger] keep(dec[j]),
                    decreases n - cut,
                {
                    assert(dec[cut as int] == (raw@[cut as int].0@, raw@[cut as int].1));
                    cut = cut + 1;
                }
                if cut < n {
                    assert(dec[cut as int] == (raw@[cut as int].0@, raw@[cut as int].1));
                    assert(!keep(dec[cut as int]));
                }
            },
        }
        proof {
            lemma_stop_cut_unique(dec, keep, cut as int);
        }

        // Post-process the kept lines.
        let upper = options.upper_case();
        let mut lines: Vec<String> = Vec::new();
        let mut i: usize = 0;
        while i < cut
            invariant
                0 <= i <= cut <= raw@.len(),
                raw@.map_values(|p: (String, u16)| (p.0@, p.1)) == dec,
                upper == options.spec_upper_case(),
                lines@.len() == i,
                forall|j: int| 0 <= j < i ==> #[trigger] lines@[j]@ == mos_line(dec[j].0, upper),
            decreases cut - i,
        {
            assert(dec[i as int] == (raw@[i as int].0@, raw@[i as int].1));
            let entry = &raw[i];
            let chopped = chop_line(entry.0.as_str());
            let line = if upper {
                chopped.to_owned()
            } else {
                ascii_lower(chopped)
            };
            lines.push(line);
            i = i + 1;
        }
        proof {
            assert(lines@.map_values(|s: String| s@) =~= mos_output(bytes@, *options));
        }
        Ok(lines)
    }
}

/// Law: under an inclusive stop boundary, the kept prefix of an
/// address-ascending decode holds exactly the instructions whose address is
/// at most the boundary, in their original ascending order; without a stop
/// boundary everything is kept.
pub proof fn lemma_fixed_stop_inclusive(dec: Seq<(Seq<char>, u16)>, stop_at: Option<usize>)
    requires
        mos_ascending(dec),
    ensures
        ({
            let keep = |p: (Seq<char>, u16)| mos_keep(stop_at, p.1);
            let c = stop_cut(dec, keep);
            &&& 0 <= c <= dec.len()
            &&& (stop_at is None ==> c == dec.len())
            &&& (stop_at matches Some(s) ==> forall|i: int|
                0 <= i < c ==> #[trigger] dec[i].1 as int <= s as int)
            &&& (stop_at matches Some(s) ==> forall|i: int|
                c <= i < dec.len() ==> #[trigger] dec[i].1 as int > s as int)
        }),
{
    let keep = |p: (Seq<char>, u16)| mos_keep(stop_at, p.1);
    let c = stop_cut(dec, keep);
    lemma_stop_cut_props(dec, keep);
    if stop_at is None {
        lemma_stop_cut_unique(dec, keep, dec.len() as int);
    } else {
        let s = stop_at->0;
        assert forall|i: int| c <= i < dec.len() implies #[trigger] dec[i].1 as int > s as int by {
            assert(!keep(dec[c]));
            if i > c {
                assert(dec[c].1 < dec[i].1);
            }
        }
    }
}

/// Law: for the fixed 8-bit adapter, lower-case output is exactly the
/// ASCII-lowercased form of the upper-case output, line for line, whatever
/// the buffer and the other options.
pub proof fn lemma_fixed_case_fold(bytes: Seq<u8>, upper: AssemblerOutput, lower: AssemblerOutput)
    requires
        upper.spec_address() == lower.spec_address(),
        upper.spec_stop_at() == lower.spec_stop_at(),
        upper.spec_upper_case(),
        !lower.spec_upper_case(),
    ensures
        mos_output(bytes, lower) =~= mos_output(bytes, upper).map_values(
            |line: Seq<char>| lower_seq(line),
        ),
{
    let dec = mos_decoded(bytes, upper.spec_address());
    let keep = |p: (Seq<char>, u16)| mos_keep(upper.spec_stop_at(), p.1);
    let kept = dec.take(stop_cut(dec, keep));
    lemma_stop_cut_props(dec, keep);
    assert(mos_output(bytes, lower) =~= kept.map_values(
        |p: (Seq<char>, u16)| mos_line(p.0, false),
    ));
    assert(mos_output(bytes, upper).map_values(|line: Seq<char>| lower_seq(line)) =~= kept.map_values(
        |p: (Seq<char>, u16)| mos_line(p.0, false),
    ));
}

} // verus!
