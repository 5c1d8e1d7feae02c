//! Text shaping shared by the adapters: ASCII case folding, line-terminator
//! stripping and fixed-width hexadecimal rendering of addresses.

use vstd::prelude::*;
use vstd::string::StrSliceExecFns;
use vstd::string::StringExecFns;

verus! {

/// The ASCII-lowercased form of one character: letters 'A' to 'Z' map to
/// 'a' to 'z', every other character is unchanged.
pub open spec fn lower_char(c: char) -> char {
    if c == 'A' {
        'a'
    } else if c == 'B' {
        'b'
    } else if c == 'C' {
        'c'
    } else if c == 'D' {
        'd'
    } else if c == 'E' {
        'e'
    } else if c == 'F' {
        'f'
    } else if c == 'G' {
        'g'
    } else if c == 'H' {
        'h'
    } else if c == 'I' {
        'i'
    } else if c == 'J' {
        'j'
    } else if c == 'K' {
        'k'
    } else if c == 'L' {
        'l'
    } else if c == 'M' {
        'm'
    } else if c == 'N' {
        'n'
    } else if c == 'O' {
        'o'
    } else if c == 'P' {
        'p'
    } else if c == 'Q' {
        'q'
    } else if c == 'R' {
        'r'
    } else if c == 'S' {
        's'
    } else if c == 'T' {
        't'
    } else if c == 'U' {
        'u'
    } else if c == 'V' {
        'v'
    } else if c == 'W' {
        'w'
    } else if c == 'X' {
        'x'
    } else if c == 'Y' {
        'y'
    } else if c == 'Z' {
        'z'
    } else {
        c
    }
}

/// The ASCII-lowercased form of a character sequence.
pub open spec fn lower_seq(s: Seq<char>) -> Seq<char> {
    s.map_values(|c: char| lower_char(c))
}

/// Relies on str::to_ascii_lowercase: ASCII upper-case letters are replaced
/// with their lower-case counterpart, all other characters are unchanged.
#[verifier::external_body]
pub fn ascii_lower(s: &str) -> (r: String)
    ensures
        r@ == lower_seq(s@),
{
    s.to_ascii_lowercase()
}

/// A line with its final character removed, if it has one: the engines
/// append a line terminator that the adapters strip.
pub open spec fn strip_last(s: Seq<char>) -> Seq<char> {
    if s.len() > 0 {
        s.drop_last()
    } else {
        s
    }
}

/// Removes the final character of `line`, if it has one.
pub fn chop_line(line: &str) -> (r: &str)
    ensures
        r@ == strip_last(line@),
{
    let n = line.unicode_len();
    if n > 0 {
        let r = line.substring_char(0, n - 1);
        proof {
            assert(r@ =~= strip_last(line@));
        }
        r
    } else {
        line
    }
}

/// The hexadecimal digit for a value below sixteen, in the requested case.
pub open spec fn hex_digit(v: int, upper: bool) -> char {
    if v == 0 {
        '0'
    } else if v == 1 {
        '1'
    } else if v == 2 {
        '2'
    } else if v == 3 {
        '3'
    } else if v == 4 {
        '4'
    } else if v == 5 {
        '5'
    } else if v == 6 {
        '6'
    } else if v == 7 {
        '7'
    } else if v == 8 {
        '8'
    } else if v == 9 {
        '9'
    } else if v == 10 {
        if upper {
            'A'
        } else {
            'a'
        }
    } else if v == 11 {
        if upper {
            'B'
        } else {
            'b'
        }
    } else if v == 12 {
        if upper {
            'C'
        } else {
            'c'
        }
    } else if v == 13 {
        if upper {
            'D'
        } else {
            'd'
        }
    } else if v == 14 {
        if upper {
            'E'
        } else {
            'e'
        }
    } else if v == 15 {
        if upper {
            'F'
        } else {
            'f'
        }
    } else {
        '0'
    }
}

/// `v` written as exactly `width` hexadecimal digits, least significant
/// digit last, truncating high digits that do not fit.
pub open spec fn hex_seq(v: int, width: nat, upper: bool) -> Seq<char>
    decreases width,
{
    if width == 0 {
        Seq::empty()
    } else {
        hex_seq(v / 16, (width - 1) as nat, upper).push(hex_digit(v % 16, upper))
    }
}

/// How many hexadecimal digits `v` needs.
pub open spec fn hex_width(v: int) -> nat
    decreases v,
{
    if v < 16 {
        1
    } else {
        1 + hex_width(v / 16)
    }
}

/// The digit count of a value below `16^k` is at most `k`.
pub open spec fn pow16(k: nat) -> int
    decreases k,
{
    if k == 0 {
        1
    } else {
        16 * pow16((k - 1) as nat)
    }
}

proof fn lemma_hex_width_le(v: int, k: nat)
    requires
        0 <= v < pow16(k),
        k >= 1,
    ensures
        hex_width(v) <= k,
    decreases k,
{
    if v < 16 {
    } else {
        assert(pow16(k) == 16 * pow16((k - 1) as nat));
        lemma_hex_width_le(v / 16, (k - 1) as nat);
    }
}

/// Every 64-bit value fits in sixteen hexadecimal digits.
proof fn lemma_hex_width_u64(v: u64)
    ensures
        1 <= hex_width(v as int) <= 16,
{
    reveal_with_fuel(pow16, 17);
    assert(pow16(16) == 0x1_0000_0000_0000_0000);
    lemma_hex_width_le(v as int, 16);
}

/// One hexadecimal digit as a string slice, in the requested case.
pub fn hex_digit_str(d: u64, upper: bool) -> (r: &'static str)
    requires
        d < 16,
    ensures
        r@ =~= seq![hex_digit(d as int, upper)],
{
    proof {
        reveal_strlit("0");
        reveal_strlit("1");
        reveal_strlit("2");
        reveal_strlit("3");
        reveal_strlit("4");
        reveal_strlit("5");
        reveal_strlit("6");
        reveal_strlit("7");
        reveal_strlit("8");
        reveal_strlit("9");
        reveal_strlit("A");
        reveal_strlit("B");
        reveal_strlit("C");
        reveal_strlit("D");
        reveal_strlit("E");
        reveal_strlit("F");
        reveal_strlit("a");
        reveal_strlit("b");
        reveal_strlit("c");
        reveal_strlit("d");
        reveal_strlit("e");
        reveal_strlit("f");
    }
    match d {
        0 => "0",
        1 => "1",
        2 => "2",
        3 => "3",
        4 => "4",
        5 => "5",
        6 => "6",
        7 => "7",
        8 => "8",
        9 => "9",
        10 => if upper {
            "A"
        } else {
            "a"
        },
        11 => if upper {
            "B"
        } else {
            "b"
        },
        12 => if upper {
            "C"
        } else {
            "c"
        },
        13 => if upper {
            "D"
        } else {
            "d"
        },
        14 => if upper {
            "E"
        } else {
            "e"
        },
        _ => if upper {
            "F"
        } else {
            "f"
        },
    }
}

/// Renders `v` as exactly `width` hexadecimal digits.
pub fn hex_render(v: u64, width: usize, upper: bool) -> (s: String)
    requires
        width <= 32,
    ensures
        s@ =~= hex_seq(v as int, width as nat, upper),
    decreases width,
{
    if width == 0 {
        String::new()
    } else {
        let mut s = hex_render(v / 16, width - 1, upper);
        s.append(hex_digit_str(v % 16, upper));
        proof {
            assert(s@ =~= hex_seq(v as int, width as nat, upper));
        }
        s
    }
}

/// `v` written in hexadecimal with as many digits as it needs, but at least
/// eight, zero padded on the left.
pub open spec fn hex_min8(v: int, upper: bool) -> Seq<char> {
    hex_seq(v, if hex_width(v) < 8 {
        8nat
    } else {
        hex_width(v)
    }, upper)
}

/// Renders `v` as zero-padded hexadecimal, at least eight digits wide.
pub fn hex_display(v: u64, upper: bool) -> (s: String)
    ensures
        s@ == hex_min8(v as int, upper),
{
    proof {
        lemma_hex_width_u64(v);
    }
    let w = hex_width_exec(v);
    let width = if w < 8 {
        8
    } else {
        w
    };
    hex_render(v, width, upper)
}

/// Counts the hexadecimal digits of `v`.
fn hex_width_exec(v: u64) -> (w: usize)
    ensures
        w as nat == hex_width(v as int),
        1 <= w <= 16,
    decreases v,
{
    proof {
        lemma_hex_width_u64(v);
    }
    if v < 16 {
        1
    } else {
        1 + hex_width_exec(v / 16)
    }
}

} // verus!
