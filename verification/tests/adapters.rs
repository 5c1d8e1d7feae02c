use disassembler::format::{AssemblerOutput, ShowAddress};
use disassembler::mos6502::Mos6502;
use disassembler::risc_v::RiscV;
use disassembler::x86::{Syntax, X86};
use disassembler::{BitWidth, DisasmError, Disassembler};

/// The first bytes of the binary the original test suite decodes: an ELF
/// header, which decodes as both valid 6502 and valid x86 code.
const ELF_HEAD: &[u8] = &[0x7F, 0x45, 0x4C, 0x46, 0x02, 0x01, 0x01, 0x00, 0x00, 0x00, 0x00];

const MOS6502_TEST_BYTES: &[u8] = &[0xa9, 0xbd, 0xa0, 0xbd, 0x20, 0x28, 0xba];

#[test]
fn mos6502_test_stop() {
    let output = Mos6502
        .disassemble(
            &[0xa9, 0xbd, 0xa0, 0xbd, 0x20, 0x28, 0xba],
            &AssemblerOutput::default().with_stop(2),
        )
        .unwrap();

    assert_eq!(output, ["0000 A9 BD    LDA #$BD", "0002 A0 BD    LDY #$BD"]);
}

#[test]
fn x86_test_stop() {
    let output = X86::new(Syntax::Intel, BitWidth::Bit64)
        .unwrap()
        .disassemble(
            ELF_HEAD,
            &AssemblerOutput::default()
                .with_stop(10)
                .with_addresses(ShowAddress::Omit),
        )
        .unwrap();

    assert_eq!(
        output,
        [
            "JG SHORT 0000000000000047h",
            "ADD R8B,[RCX]",
            "ADD [RAX],EAX",
            "ADD [RAX],AL"
        ]
    );
}

#[test]
fn test_offset() {
    let output = X86::new(Syntax::Intel, BitWidth::Bit64)
        .unwrap()
        .disassemble(
            ELF_HEAD,
            &AssemblerOutput::default()
                .with_addresses(ShowAddress::Start(0xFFF))
                .with_stop(10),
        )
        .unwrap();

    assert_eq!(
        output,
        [
            "0x00000FFF JG SHORT 0000000000000047h",
            "0x00001001 ADD R8B,[RCX]",
            "0x00001005 ADD [RAX],EAX",
            "0x00001007 ADD [RAX],AL"
        ]
    );
}

#[test]
fn test_mos6502() {
    let output = Mos6502
        .disassemble(MOS6502_TEST_BYTES, &AssemblerOutput::default())
        .unwrap();

    assert_eq!(
        output,
        [
            "0000 A9 BD    LDA #$BD",
            "0002 A0 BD    LDY #$BD",
            "0004 20 28 BA JSR $BA28",
        ]
    );
}

#[test]
fn test_mos6502_offset() {
    let output = Mos6502
        .disassemble(
            MOS6502_TEST_BYTES,
            &AssemblerOutput::default().with_addresses(ShowAddress::Start(0xA)),
        )
        .unwrap();

    assert_eq!(
        output,
        [
            "000A A9 BD    LDA #$BD",
            "000C A0 BD    LDY #$BD",
            "000E 20 28 BA JSR $BA28",
        ]
    );
}

#[test]
fn test_mos6502_no_address() {
    let output = Mos6502
        .disassemble(
            MOS6502_TEST_BYTES,
            &AssemblerOutput::default().with_addresses(ShowAddress::Omit),
        )
        .unwrap();

    assert_eq!(output, ["LDA #$BD", "LDY #$BD", "JSR $BA28"]);
}

#[test]
fn test_mos6502_no_address_lowercase() {
    let output = Mos6502
        .disassemble(
            MOS6502_TEST_BYTES,
            &AssemblerOutput::default()
                .with_addresses(ShowAddress::Omit)
                .with_upper_case(false),
        )
        .unwrap();

    assert_eq!(output, ["lda #$bd", "ldy #$bd", "jsr $ba28"]);
}

#[test]
fn test_mos6502_with_x86() {
    let output = Mos6502
        .disassemble(ELF_HEAD, &AssemblerOutput::default().with_stop(0xA))
        .unwrap();

    assert_eq!(
        output,
        [
            "0000 7F",
            "0001 45 4C    EOR $4C",
            "0003 46 02    LSR $02",
            "0005 01 01    ORA ($01,X)",
            "0007 00       BRK",
            "0008 00       BRK",
            "0009 00       BRK",
            "000A 00       BRK",
        ]
    );
}

#[test]
fn test_x86() {
    let att = X86::new(Syntax::Att, BitWidth::Bit64)
        .unwrap()
        .disassemble(ELF_HEAD, &AssemblerOutput::default().with_stop(0xA))
        .unwrap();

    assert_eq!(
        att,
        [
            "0x00000000 JG 0x0000000000000047",
            "0x00000002 ADD (%RCX),%R8B",
            "0x00000006 ADD %EAX,(%RAX)",
            "0x00000008 ADD %AL,(%RAX)",
        ]
    );

    let intel = X86::new(Syntax::Intel, BitWidth::Bit64)
        .unwrap()
        .disassemble(ELF_HEAD, &AssemblerOutput::default().with_stop(0xA))
        .unwrap();

    assert_eq!(
        intel,
        [
            "0x00000000 JG SHORT 0000000000000047h",
            "0x00000002 ADD R8B,[RCX]",
            "0x00000006 ADD [RAX],EAX",
            "0x00000008 ADD [RAX],AL",
        ]
    );
}

#[test]
fn test_unimplemented() {
    let disasm = RiscV::new(BitWidth::Bit16).unwrap();
    let err = disasm
        .disassemble(ELF_HEAD, &AssemblerOutput::default())
        .unwrap_err();

    assert_eq!(
        err.message().unwrap(),
        "The implementation has not been done"
    );
}

/// The fixed 8-bit adapter's stop boundary is inclusive: an instruction
/// landing exactly on the boundary is still emitted, and omitting the stop
/// keeps everything.
#[test]
fn test_mos6502_stop_boundary_inclusive() {
    let at_boundary = Mos6502
        .disassemble(MOS6502_TEST_BYTES, &AssemblerOutput::default().with_stop(4))
        .unwrap();
    assert_eq!(at_boundary.len(), 3);
    assert_eq!(at_boundary[2], "0004 20 28 BA JSR $BA28");

    let all = Mos6502
        .disassemble(MOS6502_TEST_BYTES, &AssemblerOutput::default())
        .unwrap();
    assert_eq!(all.len(), 3);
}

/// The variable-length adapter's stop boundary is exclusive: an
/// instruction landing exactly on the boundary is dropped — unlike the
/// fixed 8-bit adapter's inclusive boundary.
#[test]
fn test_x86_stop_boundary_exclusive() {
    let disasm = X86::new(Syntax::Intel, BitWidth::Bit64).unwrap();
    let output = disasm
        .disassemble(ELF_HEAD, &AssemblerOutput::default().with_stop(2))
        .unwrap();

    // Instructions decode at addresses 0 and 2; only the one strictly
    // below the boundary remains.
    assert_eq!(output, ["0x00000000 JG SHORT 0000000000000047h"]);
}

/// Lower-case output is the ASCII-lowercased form of the upper-case
/// output, line for line.
#[test]
fn test_case_fold_line_for_line() {
    let upper = Mos6502
        .disassemble(MOS6502_TEST_BYTES, &AssemblerOutput::default())
        .unwrap();
    let lower = Mos6502
        .disassemble(
            MOS6502_TEST_BYTES,
            &AssemblerOutput::default().with_upper_case(false),
        )
        .unwrap();
    assert_eq!(upper.len(), lower.len());
    for (u, l) in upper.iter().zip(lower.iter()) {
        assert_eq!(&u.to_ascii_lowercase(), l);
    }

    let x86 = X86::new(Syntax::Intel, BitWidth::Bit64).unwrap();
    let upper = x86
        .disassemble(ELF_HEAD, &AssemblerOutput::default().with_stop(10))
        .unwrap();
    let lower = x86
        .disassemble(
            ELF_HEAD,
            &AssemblerOutput::default().with_stop(10).with_upper_case(false),
        )
        .unwrap();
    assert_eq!(upper.len(), lower.len());
    for (u, l) in upper.iter().zip(lower.iter()) {
        assert_eq!(&u.to_ascii_lowercase(), l);
    }
}

/// An empty byte buffer yields an empty sequence, not an error, for the
/// decoding adapters, under every address mode.
#[test]
fn test_empty_buffer() {
    assert_eq!(
        Mos6502.disassemble(&[], &AssemblerOutput::default()).unwrap(),
        Vec::<String>::new()
    );
    assert_eq!(
        Mos6502
            .disassemble(
                &[],
                &AssemblerOutput::default().with_addresses(ShowAddress::Omit)
            )
            .unwrap(),
        Vec::<String>::new()
    );

    let x86 = X86::new(Syntax::Intel, BitWidth::Bit64).unwrap();
    assert_eq!(
        x86.disassemble(&[], &AssemblerOutput::default()).unwrap(),
        Vec::<String>::new()
    );
    let att = X86::new(Syntax::Att, BitWidth::Bit16).unwrap();
    assert_eq!(
        att.disassemble(&[], &AssemblerOutput::default()).unwrap(),
        Vec::<String>::new()
    );
}

/// A displayed address needing more than eight hexadecimal digits widens
/// past the zero-padded minimum instead of being cut.
#[test]
fn test_x86_wide_address() {
    let disasm = X86::new(Syntax::Intel, BitWidth::Bit64).unwrap();
    let output = disasm
        .disassemble(
            &[0x00, 0x00],
            &AssemblerOutput::default().with_addresses(ShowAddress::Start(0x1_0000_0000)),
        )
        .unwrap();

    assert_eq!(output, ["0x100000000 ADD [RAX],AL"]);
}

/// A buffer whose final instruction is truncated would fault the 6502
/// engine; the checked entry point reports that instead of decoding.
#[test]
fn test_mos6502_try_disassemble() {
    // A lone LDA-immediate opcode misses its operand byte.
    assert!(Mos6502
        .try_disassemble(&[0xa9], &AssemblerOutput::default())
        .is_none());

    // With the operand present the buffer decodes.
    let output = Mos6502
        .try_disassemble(&[0xa9, 0xbd], &AssemblerOutput::default())
        .unwrap()
        .unwrap();
    assert_eq!(output, ["0000 A9 BD    LDA #$BD"]);

    // An indirect jump whose target plus the configured offset leaves the
    // sixteen-bit address space would fault the engine.
    let jmp_high = &[0x6C, 0xFF, 0xFF];
    assert!(Mos6502
        .try_disassemble(
            jmp_high,
            &AssemblerOutput::default().with_addresses(ShowAddress::Start(1))
        )
        .is_none());
    // With no offset the same jump is fine.
    assert!(Mos6502
        .try_disassemble(jmp_high, &AssemblerOutput::default())
        .is_some());

    // The two branch displacements whose back-target arithmetic faults the
    // engine are refused; a neighbouring displacement decodes.
    assert!(Mos6502
        .try_disassemble(&[0xD0, 0xFF], &AssemblerOutput::default())
        .is_none());
    assert!(Mos6502
        .try_disassemble(&[0xD0, 0x80], &AssemblerOutput::default())
        .is_none());
    let output = Mos6502
        .try_disassemble(&[0xD0, 0xFE], &AssemblerOutput::default())
        .unwrap()
        .unwrap();
    assert_eq!(output, ["0000 D0 FE    BNE $0000"]);

    // A rejected option is reported even on a buffer the engine could not
    // decode: options are validated before any decoding work begins.
    let rejected = Mos6502
        .try_disassemble(&[0xa9], &AssemblerOutput::default().with_cycles(true))
        .unwrap();
    assert!(matches!(rejected, Err(DisasmError::UnsupportedOption)));
}
