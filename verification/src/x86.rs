//! The x86 adapter: a variable-length multi-width architecture decoded by
//! an external engine, with two rendering syntaxes.

use vstd::prelude::*;
use vstd::string::StringExecFns;

use crate::disasm::{lemma_stop_cut_props, lemma_stop_cut_unique, stop_cut, DisasmError,
    Disassembler};
use crate::format::{AssemblerOutput, ShowAddress};
use crate::text::{ascii_lower, hex_display, hex_min8, lower_seq};
use crate::BitWidth;

verus! {

/// The engine's own error type, carried through unread.
#[verifier::external_type_specification]
#[verifier::external_body]
pub struct ExIcedError(iced_x86::IcedError);

/// The x86 adapter's architecture-specific error.
#[derive(Debug)]
pub enum Error {
    /// A failure of the underlying engine (declared, not produced today).
    Iced(iced_x86::IcedError),
    /// The requested syntax string names no supported rendering syntax; it
    /// is carried back verbatim.
    UnsupportedSyntax(String),
}

impl Error {
    /// The human-readable description of this error, to be surfaced
    /// verbatim to the caller.
    pub fn message(&self) -> (m: String)
        ensures
            match self {
                Error::Iced(_) => m@ == "Iced disassembler error"@,
                Error::UnsupportedSyntax(s) => m@ == "Unsupported syntax: "@ + s@,
            },
    {
        match self {
            Error::Iced(_) => String::from_str("Iced disassembler error"),
            Error::UnsupportedSyntax(s) => {
                let mut m = String::from_str("Unsupported syntax: ");
                m.append(s.as_str());
                m
            },
        }
    }
}

/// Output disassembly syntax.
#[derive(Debug, PartialEq, Eq, Structural, Clone, Copy)]
pub enum Syntax {
    Intel,
    Att,
}

impl Default for Syntax {
    fn default() -> (r: Self)
        ensures
            r == Syntax::Intel,
    {
        Syntax::Intel
    }
}

impl Syntax {
    /// Parses a syntax name, case-insensitively: "intel" names the first
    /// syntax, "att" or its synonym "at&t" the second, and anything else is
    /// an unsupported syntax, never silently defaulted.
    pub fn from_str(s: &str) -> (r: Result<Self, Error>)
        ensures
            (lower_seq(s@) == "intel"@) <==> (r matches Ok(y) && y == Syntax::Intel),
            (lower_seq(s@) == "att"@ || lower_seq(s@) == "at&t"@) <==> (r matches Ok(y) && y
                == Syntax::Att),
            (r matches Err(e) ==> e matches Error::UnsupportedSyntax(t) && t@ == s@),
    {
        proof {
            reveal_strlit("intel");
            reveal_strlit("att");
            reveal_strlit("at&t");
        }
        let lowered = ascii_lower(s);
        if lowered == String::from_str("intel") {
            // "intel" names neither of the second syntax's aliases: the
            // three names do not even share a length.
            assert("intel"@.len() == 5 && "att"@.len() == 3 && "at&t"@.len() == 4);
            Ok(Syntax::Intel)
        } else if lowered == String::from_str("att") || lowered == String::from_str("at&t") {
            Ok(Syntax::Att)
        } else {
            Err(Error::UnsupportedSyntax(s.to_owned()))
        }
    }
}

/// x86 disassembler.
#[derive(Debug)]
pub struct X86 {
    syntax: Syntax,
    width: BitWidth,
}

/// Everything the engine renders for `bytes` in the first (Intel) syntax:
/// one (instruction address, rendered text) pair per decoded instruction,
/// in decode order.
pub uninterp spec fn x86_lines_intel(bytes: Seq<u8>, bitness: u32, upper: bool) -> Seq<
    (u64, Seq<char>),
>;

/// As [`x86_lines_intel`], for the second (AT&T) syntax.
pub uninterp spec fn x86_lines_gas(bytes: Seq<u8>, bitness: u32, upper: bool) -> Seq<
    (u64, Seq<char>),
>;

/// Relies on iced_x86::Decoder (new, can_decode, decode_out) and
/// iced_x86::IntelFormatter: decodes the whole buffer from instruction
/// pointer zero into (address, text) pairs; an empty buffer yields no
/// pairs, every decode consumes at least one byte, so the addresses — byte
/// positions in the buffer — are strictly increasing.
#[verifier::external_body]
fn decode_intel(bytes: &[u8], bitness: u32, upper: bool) -> (r: Vec<(u64, String)>)
    requires
        bitness == 16 || bitness == 32 || bitness == 64,
    ensures
        r@.map_values(|p: (u64, String)| (p.0, p.1@)) == x86_lines_intel(bytes@, bitness, upper),
        bytes@.len() == 0 ==> r@.len() == 0,
        forall|j: int, k: int| 0 <= j < k < r@.len() ==> #[trigger] r@[j].0 < #[trigger] r@[k].0,
{
    let mut decoder = iced_x86::Decoder::new(bitness, bytes, iced_x86::DecoderOptions::NONE);
    let mut formatter = iced_x86::IntelFormatter::new();
    iced_x86::Formatter::options_mut(&mut formatter).set_uppercase_all(upper);
    let mut res: Vec<(u64, String)> = Vec::new();
    let mut instruction = iced_x86::Instruction::default();
    while decoder.can_decode() {
        decoder.decode_out(&mut instruction);
        let mut output = String::new();
        iced_x86::Formatter::format(&mut formatter, &instruction, &mut output);
        res.push((instruction.ip(), output));
    }
    res
}

/// Relies on iced_x86::Decoder (new, can_decode, decode_out) and
/// iced_x86::GasFormatter: as [`decode_intel`], in the second syntax.
#[verifier::external_body]
fn decode_gas(bytes: &[u8], bitness: u32, upper: bool) -> (r: Vec<(u64, String)>)
    requires
        bitness == 16 || bitness == 32 || bitness == 64,
    ensures
        r@.map_values(|p: (u64, String)| (p.0, p.1@)) == x86_lines_gas(bytes@, bitness, upper),
        bytes@.len() == 0 ==> r@.len() == 0,
        forall|j: int, k: int| 0 <= j < k < r@.len() ==> #[trigger] r@[j].0 < #[trigger] r@[k].0,
{
    let mut decoder = iced_x86::Decoder::new(bitness, bytes, iced_x86::DecoderOptions::NONE);
    let mut formatter = iced_x86::GasFormatter::new();
    iced_x86::Formatter::options_mut(&mut formatter).set_uppercase_all(upper);
    let mut res: Vec<(u64, String)> = Vec::new();
    let mut instruction = iced_x86::Instruction::default();
    while decoder.can_decode() {
        decoder.decode_out(&mut instruction);
        let mut output = String::new();
        iced_x86::Formatter::format(&mut formatter, &instruction, &mut output);
        res.push((instruction.ip(), output));
    }
    res
}

/// The engine output selected by the configured syntax.
pub open spec fn x86_decoded(bytes: Seq<u8>, bitness: u32, syntax: Syntax, upper: bool) -> Seq<
    (u64, Seq<char>),
> {
    match syntax {
        Syntax::Intel => x86_lines_intel(bytes, bitness, upper),
        Syntax::Att => x86_lines_gas(bytes, bitness, upper),
    }
}

/// Whether an instruction at address `ip` is kept under the stop option:
/// this adapter's stop boundary is exclusive, an instruction landing
/// exactly on it is already dropped (unlike the fixed 8-bit adapter's
/// inclusive boundary).
pub open spec fn x86_keep(stop_at: Option<usize>, ip: u64) -> bool {
    match stop_at {
        Some(s) => (ip as int) < (s as int),
        None => true,
    }
}

/// The address displayed for an instruction: its natural decode address
/// plus the configured offset, in the native sixty-four-bit address space.
pub open spec fn x86_disp_addr(ip: u64, off: usize) -> u64 {
    vstd::wrapping::u64_specs::wrapping_add(ip, off as u64)
}

/// One output line: the rendered text alone when addresses are omitted,
/// else the displayed address as zero-padded hexadecimal of at least eight
/// digits in the requested case, prefixed and separated by one space.
pub open spec fn x86_line(p: (u64, Seq<char>), address: ShowAddress, upper: bool) -> Seq<char> {
    match address {
        ShowAddress::Omit => p.1,
        ShowAddress::Start(off) => "0x"@ + hex_min8(x86_disp_addr(p.0, off) as int, upper) + " "@
            + p.1,
    }
}

/// Whether a decode's instruction addresses are strictly ascending.
pub open spec fn x86_ascending(dec: Seq<(u64, Seq<char>)>) -> bool {
    forall|j: int, k: int| 0 <= j < k < dec.len() ==> #[trigger] dec[j].0 < #[trigger] dec[k].0
}

/// The adapter's full output: the decoded pairs strictly before the stop
/// boundary, each shaped into a line.
pub open spec fn x86_output(bytes: Seq<u8>, bitness: u32, syntax: Syntax, options: AssemblerOutput) -> Seq<
    Seq<char>,
> {
    let dec = x86_decoded(bytes, bitness, syntax, options.spec_upper_case());
    let keep = |p: (u64, Seq<char>)| x86_keep(options.spec_stop_at(), p.0);
    dec.take(stop_cut(dec, keep)).map_values(
        |p: (u64, Seq<char>)| x86_line(p, options.spec_address(), options.spec_upper_case()),
    )
}

impl X86 {
    /// The syntax this adapter renders in.
    pub closed spec fn spec_syntax(self) -> Syntax {
        self.syntax
    }

    /// The width this adapter decodes for.
    pub closed spec fn spec_width(self) -> BitWidth {
        self.width
    }

    /// Whether this architecture supports the requested bit width.
    pub open spec fn width_supported(width: BitWidth) -> bool {
        width == BitWidth::Bit16 || width == BitWidth::Bit32 || width == BitWidth::Bit64
    }

    /// A constructed adapter always holds a supported width.
    pub open spec fn wf(self) -> bool {
        Self::width_supported(self.spec_width())
    }

    /// Constructs a new [`X86`] disassembler, validating its options: the
    /// three wide widths are accepted, anything else is a wrong bit width.
    pub fn new(syntax: Syntax, width: BitWidth) -> (r: Result<Self, DisasmError<Error>>)
        ensures
            Self::width_supported(width) <==> (r matches Ok(d) && d.spec_width() == width
                && d.spec_syntax() == syntax && d.wf()),
            !Self::width_supported(width) <==> (r matches Err(e) && e matches
                DisasmError::WrongBitWidth(w) && w == width),
    {
        match width {
            BitWidth::Bit16 | BitWidth::Bit32 | BitWidth::Bit64 => Ok(X86 { syntax, width }),
            unsupported => Err(DisasmError::WrongBitWidth(unsupported)),
        }
    }
}

impl Disassembler for X86 {
    type Error = Error;

    /// The engine decodes any buffer; only the construction-time width must
    /// be one the engine accepts, which construction guarantees.
    open spec fn decode_ready(&self, bytes: Seq<u8>, options: AssemblerOutput) -> bool {
        self.wf()
    }

    /// Decodes the whole buffer, keeps the instructions strictly before the
    /// stop boundary, and shapes each line, prepending the displayed
    /// address unless addresses are omitted. A symbol table or a cycle
    /// request is rejected before any decoding, and nothing else is ever
    /// rejected.
    fn disassemble(&self, bytes: &[u8], options: &AssemblerOutput) -> (r: Result<
        Vec<String>,
        DisasmError<Error>,
    >)
        ensures
            options.spec_rejected() <==> (r matches Err(e) && e is UnsupportedOption),
            !options.spec_rejected() ==> (r matches Ok(lines) && lines@.map_values(|s: String| s@)
                == x86_output(
                bytes@,
                self.spec_width().spec_bits() as u32,
                self.spec_syntax(),
                *options,
            )),
            (!options.spec_rejected() && bytes@.len() == 0) ==> (r matches Ok(lines) && lines@.len()
                == 0),
            !options.spec_rejected() ==> x86_ascending(
                x86_decoded(
                    bytes@,
                    self.spec_width().spec_bits() as u32,
                    self.spec_syntax(),
                    options.spec_upper_case(),
                ),
            ),
    {
        if options.symbol_table().is_some() || options.cycles() {
            return Err(DisasmError::UnsupportedOption);
        }
        let upper = options.upper_case();
        let bitness = self.width.bits() as u32;
        let raw: Vec<(u64, String)> = match self.syntax {
            Syntax::Intel => decode_intel(bytes, bitness, upper),
            Syntax::Att => decode_gas(bytes, bitness, upper),
        };
        let ghost dec = x86_decoded(bytes@, bitness, self.spec_syntax(), upper);
        let ghost keep = |p: (u64, Seq<char>)| x86_keep(options.spec_stop_at(), p.0);
        assert(raw@.map_values(|p: (u64, String)| (p.0, p.1@)) == dec);
        proof {
            assert forall|j: int, k: int|
                0 <= j < k < dec.len() implies #[trigger] dec[j].0 < #[trigger] dec[k].0 by {
                assert(dec[j] == (raw@[j].0, raw@[j].1@));
                assert(dec[k] == (raw@[k].0, raw@[k].1@));
            }
        }

        // Find how many leading instructions the stop boundary keeps.
        let n = raw.len();
        let mut cut: usize = 0;
        match options.stop_at() {
            None => {
                cut = n;
                assert(forall|j: int| 0 <= j < cut ==> #[trigger] keep(dec[j]));
            },
            Some(s) => {
                while cut < n && raw[cut].0 < s as u64
                    invariant
                        0 <= cut <= n,
                        n == raw@.len(),
                        raw@.map_values(|p: (u64, String)| (p.0, p.1@)) == dec,
                        keep == (|p: (u64, Seq<char>)| x86_keep(Some(s), p.0)),
                        forall|j: int| 0 <= j < cut ==> #[trigger] keep(dec[j]),
                    decreases n - cut,
                {
                    assert(dec[cut as int] == (raw@[cut as int].0, raw@[cut as int].1@));
                    cut = cut + 1;
                }
                if cut < n {
                    assert(dec[cut as int] == (raw@[cut as int].0, raw@[cut as int].1@));
                    assert(!keep(dec[cut as int]));
                }
            },
        }
        proof {
            lemma_stop_cut_unique(dec, keep, cut as int);
        }

        // Shape the kept lines.
        let mut lines: Vec<String> = Vec::new();
        let mut i: usize = 0;
        while i < cut
            invariant
                0 <= i <= cut <= raw@.len(),
                raw@.map_values(|p: (u64, String)| (p.0, p.1@)) == dec,
                upper == options.spec_upper_case(),
                lines@.len() == i,
                forall|j: int| 0 <= j < i ==> #[trigger] lines@[j]@ == x86_line(
                    dec[j],
                    options.spec_address(),
                    upper,
                ),
            decreases cut - i,
        {
            assert(dec[i as int] == (raw@[i as int].0, raw@[i as int].1@));
            let entry = &raw[i];
            let line: String = match *options.address() {
                ShowAddress::Omit => entry.1.clone(),
                ShowAddress::Start(off) => {
                    let disp = entry.0.wrapping_add(off as u64);
                    let mut line = String::from_str("0x");
                    let digits = hex_display(disp, upper);
                    line.append(digits.as_str());
                    line.append(" ");
                    line.append(entry.1.as_str());
                    line
                },
            };
            lines.push(line);
            i = i + 1;
        }
        proof {
            assert(lines@.map_values(|s: String| s@) =~= x86_output(
                bytes@,
                bitness,
                self.spec_syntax(),
                *options,
            ));
        }
        Ok(lines)
    }
}

/// Law: under an exclusive stop boundary, the kept prefix of an
/// address-ascending decode holds exactly the instructions whose address is
/// strictly below the boundary, in their original ascending order — one
/// landing exactly on the boundary is dropped, unlike under the fixed
/// 8-bit adapter's inclusive boundary; without a stop boundary everything
/// is kept.
pub proof fn lemma_variable_stop_exclusive(dec: Seq<(u64, Seq<char>)>, stop_at: Option<usize>)
    requires
        x86_ascending(dec),
    ensures
        ({
            let keep = |p: (u64, Seq<char>)| x86_keep(stop_at, p.0);
            let c = stop_cut(dec, keep);
            &&& 0 <= c <= dec.len()
            &&& (stop_at is None ==> c == dec.len())
            &&& (stop_at matches Some(s) ==> forall|i: int|
                0 <= i < c ==> (#[trigger] dec[i].0 as int) < (s as int))
            &&& (stop_at matches Some(s) ==> forall|i: int|
                c <= i < dec.len() ==> #[trigger] dec[i].0 as int >= s as int)
        }),
{
    let keep = |p: (u64, Seq<char>)| x86_keep(stop_at, p.0);
    let c = stop_cut(dec, keep);
    lemma_stop_cut_props(dec, keep);
    if stop_at is None {
        lemma_stop_cut_unique(dec, keep, dec.len() as int);
    } else {
        let s = stop_at->0;
        assert forall|i: int| c <= i < dec.len() implies #[trigger] dec[i].0 as int >= s as int by {
            assert(!keep(dec[c]));
            if i > c {
                assert(dec[c].0 < dec[i].0);
            }
        }
    }
}

/// Law: when addresses are shown, every line of the variable-length
/// adapter's output displays (instruction address + configured offset) as
/// zero-padded fixed-width hexadecimal, prefixed to the rendered text.
pub proof fn lemma_variable_address_offset(
    bytes: Seq<u8>,
    bitness: u32,
    syntax: Syntax,
    options: AssemblerOutput,
    off: usize,
)
    requires
        options.spec_address() == ShowAddress::Start(off),
    ensures
        ({
            let dec = x86_decoded(bytes, bitness, syntax, options.spec_upper_case());
            let out = x86_output(bytes, bitness, syntax, options);
            forall|i: int|
                0 <= i < out.len() ==> #[trigger] out[i] == "0x"@ + hex_min8(
                    x86_disp_addr(dec[i].0, off) as int,
                    options.spec_upper_case(),
                ) + " "@ + dec[i].1
        }),
{
    let dec = x86_decoded(bytes, bitness, syntax, options.spec_upper_case());
    let keep = |p: (u64, Seq<char>)| x86_keep(options.spec_stop_at(), p.0);
    lemma_stop_cut_props(dec, keep);
}

} // verus!

