//! Small verified text helpers: ASCII case folding, decimal and hexadecimal
//! rendering, byte-unit formatting, and the parser for numeric command-line
//! values.

use vstd::prelude::*;
use vstd::string::StringExecFns;
use vstd::string::StringSliceAdditionalSpecFns;
use vstd::string::StrSliceExecFns;

verus! {

/// `b` with an ASCII capital letter folded to its small form.
pub open spec fn lower_byte(b: u8) -> u8 {
    if 0x41 <= b <= 0x5A {
        (b + 0x20) as u8
    } else {
        b
    }
}

/// `s` with every ASCII capital letter folded to its small form.
pub open spec fn lower_bytes(s: Seq<u8>) -> Seq<u8> {
    s.map_values(|b: u8| lower_byte(b))
}

/// Do `a` and `b` hold the same bytes up to ASCII case?
pub fn eq_ignore_ascii_case(a: &str, b: &str) -> (r: bool)
    ensures
        r == (lower_bytes(a.spec_bytes()) == lower_bytes(b.spec_bytes())),
{
    let ab = a.as_bytes();
    let bb = b.as_bytes();
    if ab.len() != bb.len() {
        proof {
            assert(lower_bytes(a.spec_bytes()).len() != lower_bytes(b.spec_bytes()).len());
        }
        return false;
    }
    let n = ab.len();
    let mut i: usize = 0;
    while i < n
        invariant
            i <= n,
            n == ab@.len() == bb@.len(),
            ab@ == a.spec_bytes(),
            bb@ == b.spec_bytes(),
            forall|m: int| 0 <= m < i ==> lower_byte(ab@[m]) == lower_byte(bb@[m]),
        decreases n - i,
    {
        let x = ab[i];
        let y = bb[i];
        let xl = if 0x41 <= x && x <= 0x5A {
            x + 0x20
        } else {
            x
        };
        let yl = if 0x41 <= y && y <= 0x5A {
            y + 0x20
        } else {
            y
        };
        if xl != yl {
            proof {
                assert(lower_bytes(a.spec_bytes())[i as int] != lower_bytes(b.spec_bytes())[
                    i as int
                ]);
            }
            return false;
        }
        i = i + 1;
    }
    proof {
        assert(lower_bytes(a.spec_bytes()) =~= lower_bytes(b.spec_bytes()));
    }
    true
}

/// The decimal digit character for `n`.
pub open spec fn digit_char(n: int) -> char {
    if n == 0 {
        '0'
    } else if n == 1 {
        '1'
    } else if n == 2 {
        '2'
    } else if n == 3 {
        '3'
    } else if n == 4 {
        '4'
    } else if n == 5 {
        '5'
    } else if n == 6 {
        '6'
    } else if n == 7 {
        '7'
    } else if n == 8 {
        '8'
    } else {
        '9'
    }
}

/// The decimal rendering of `n`, most significant digit first, no leading
/// zeros (except for zero itself).
pub open spec fn spec_decimal(n: int) -> Seq<char>
    decreases n,
{
    if n < 10 {
        seq![digit_char(n)]
    } else {
        spec_decimal(n / 10) + seq![digit_char(n % 10)]
    }
}

fn digit_str(n: usize) -> (r: &'static str)
    requires
        n < 10,
    ensures
        r@ == seq![digit_char(n as int)],
{
    proof {
        reveal_strlit("0");
        reveal_strlit("1");
        reveal_strlit("2");
        reveal_strlit("3");
        reveal_strlit("4");
        reveal_strlit("5");
        reveal_strlit("6");
        reveal_strlit("7");
        reveal_strlit("8");
        reveal_strlit("9");
    }
    let r = match n {
        0 => "0",
        1 => "1",
        2 => "2",
        3 => "3",
        4 => "4",
        5 => "5",
        6 => "6",
        7 => "7",
        8 => "8",
        _ => "9",
    };
    proof {
        assert(r@ =~= seq![digit_char(n as int)]);
    }
    r
}

/// Render `n` in decimal.
pub fn usize_decimal(n: usize) -> (r: String)
    ensures
        r@ == spec_decimal(n as int),
    decreases n,
{
    if n < 10 {
        return String::from_str(digit_str(n));
    }
    let mut s = usize_decimal(n / 10);
    s.append(digit_str(n % 10));
    s
}

/// The human-readable byte count: plain bytes below 1 KB, otherwise the
/// whole KB or MB part followed, recursively, by the remainder.
pub open spec fn spec_format_byte_unit(a: int) -> Seq<char>
    decreases a,
{
    if a < 1024 {
        spec_decimal(a) + "B"@
    } else if a < 1024int * 1024 {
        spec_decimal(a / 1024) + "KB"@ + if a % 1024 != 0 {
            " "@ + spec_format_byte_unit(a % 1024)
        } else {
            Seq::empty()
        }
    } else {
        spec_decimal(a / (1024int * 1024)) + "MB"@ + if a % (1024int * 1024) != 0 {
            " "@ + spec_format_byte_unit(a % (1024int * 1024))
        } else {
            Seq::empty()
        }
    }
}

/// Format a byte count the way the progress output shows sizes, for example
/// `1MB 512KB 7B`.
pub fn format_byte_unit(a: usize) -> (r: String)
    ensures
        r@ == spec_format_byte_unit(a as int),
    decreases a,
{
    proof {
        reveal_strlit("B");
        reveal_strlit("KB");
        reveal_strlit("MB");
        reveal_strlit(" ");
    }
    if a < 1024 {
        let mut s = usize_decimal(a);
        s.append("B");
        s
    } else if a < 1024 * 1024 {
        let mut s = usize_decimal(a / 1024);
        s.append("KB");
        if a % 1024 != 0 {
            s.append(" ");
            let rest = format_byte_unit(a % 1024);
            s.append(rest.as_str());
        }
        s
    } else {
        let mut s = usize_decimal(a / (1024 * 1024));
        s.append("MB");
        if a % (1024 * 1024) != 0 {
            s.append(" ");
            let rest = format_byte_unit(a % (1024 * 1024));
            s.append(rest.as_str());
        }
        s
    }
}

/// Why a command-line value could not be parsed as a byte.
#[derive(Debug, Clone, Copy, PartialEq, Eq, Structural)]
pub enum ParseNumError {
    /// Not a boolean keyword and carrying neither a `0b` nor a `0x` prefix.
    NotANumber,
    /// A character that is no digit of the chosen base.
    InvalidDigit,
    /// The digits are valid but the value does not fit in a byte.
    TooLarge,
    /// A prefix with no digits after it.
    Empty,
}

/// The value of one (already lowercased) hexadecimal digit byte.
pub open spec fn spec_digit_val(b: u8, radix: u8) -> Option<u8> {
    let v: Option<u8> = if 0x30 <= b <= 0x39 {
        Some((b - 0x30) as u8)
    } else if 0x61 <= b <= 0x66 {
        Some((b - 0x57) as u8)
    } else {
        None
    };
    match v {
        Some(d) => if d < radix {
            Some(d)
        } else {
            None
        },
        None => None,
    }
}

/// The value of a digit string in base `radix`, or `None` if some byte is no
/// digit of that base.
pub open spec fn spec_radix_int(s: Seq<u8>, radix: u8) -> Option<int>
    decreases s.len(),
{
    if s.len() == 0 {
        Some(0)
    } else {
        match (spec_radix_int(s.drop_last(), radix), spec_digit_val(s.last(), radix)) {
            (Some(v), Some(d)) => Some(v * radix + d),
            _ => None,
        }
    }
}

/// Parse a digit string in base `radix` into a byte: no digits is an error,
/// an invalid digit is an error, a value above 255 is an error.
pub open spec fn spec_radix_value(s: Seq<u8>, radix: u8) -> Result<u8, ParseNumError> {
    if s.len() == 0 {
        Err(ParseNumError::Empty)
    } else {
        match spec_radix_int(s, radix) {
            None => Err(ParseNumError::InvalidDigit),
            Some(v) => if v > 255 {
                Err(ParseNumError::TooLarge)
            } else {
                Ok(v as u8)
            },
        }
    }
}

/// `s` with every leading repetition of `p` removed, the way
/// `trim_start_matches` strips a prefix.
pub open spec fn spec_strip_prefix_all(s: Seq<u8>, p: Seq<u8>) -> Seq<u8>
    decreases s.len(),
{
    if p.len() > 0 && p.is_prefix_of(s) {
        spec_strip_prefix_all(s.skip(p.len() as int), p)
    } else {
        s
    }
}

/// `s` without its dash bytes.
pub open spec fn spec_strip_dashes(s: Seq<u8>) -> Seq<u8> {
    s.filter(|b: u8| b != 0x2D)
}

/// The byte strings of the boolean keywords.
pub open spec fn spec_kw_true() -> Seq<u8> {
    seq![0x74u8, 0x72u8, 0x75u8, 0x65u8]
}

pub open spec fn spec_kw_t() -> Seq<u8> {
    seq![0x74u8]
}

pub open spec fn spec_kw_false() -> Seq<u8> {
    seq![0x66u8, 0x61u8, 0x6Cu8, 0x73u8, 0x65u8]
}

pub open spec fn spec_kw_f() -> Seq<u8> {
    seq![0x66u8]
}

/// What `parse_cli_arg_number` makes of an input, after ASCII lowercasing:
/// the boolean keywords (if booleans are allowed), or a `0b` binary value
/// with dashes allowed as separators, or a `0x` hexadecimal value.
pub open spec fn spec_parse_cli_arg(s: Seq<u8>, is_bool: bool) -> Result<u8, ParseNumError> {
    let low = lower_bytes(s);
    if is_bool && (low == spec_kw_true() || low == spec_kw_t()) {
        Ok(1u8)
    } else if is_bool && (low == spec_kw_false() || low == spec_kw_f()) {
        Ok(0u8)
    } else if low.len() >= 2 && low[0] == 0x30 && low[1] == 0x62 {
        spec_radix_value(
            spec_strip_dashes(spec_strip_prefix_all(low, seq![0x30u8, 0x62u8])),
            2,
        )
    } else if low.len() >= 2 && low[0] == 0x30 && low[1] == 0x78 {
        spec_radix_value(spec_strip_prefix_all(low, seq![0x30u8, 0x78u8]), 16)
    } else {
        Err(ParseNumError::NotANumber)
    }
}

/// Do the bytes of `a` equal those of `b`?
fn bytes_eq(a: &Vec<u8>, b: &[u8]) -> (r: bool)
    ensures
        r == (a@ == b@),
{
    if a.len() != b.len() {
        return false;
    }
    let n = a.len();
    let mut i: usize = 0;
    while i < n
        invariant
            i <= n,
            n == a@.len() == b@.len(),
            forall|m: int| 0 <= m < i ==> a@[m] == b@[m],
        decreases n - i,
    {
        if a[i] != b[i] {
            return false;
        }
        i = i + 1;
    }
    proof {
        assert(a@ =~= b@);
    }
    true
}

/// If some prefix of `s` has an invalid digit, so has all of `s`.
proof fn lemma_radix_int_none(s: Seq<u8>, radix: u8, i: int)
    requires
        0 <= i <= s.len(),
        spec_radix_int(s.take(i), radix) is None,
    ensures
        spec_radix_int(s, radix) is None,
    decreases s.len() - i,
{
    if i < s.len() {
        assert(s.take(i + 1).drop_last() =~= s.take(i));
        lemma_radix_int_none(s, radix, i + 1);
    } else {
        assert(s.take(i) =~= s);
    }
}

/// Parse the digits of `s` from `from` on in base `radix`.
fn parse_radix(s: &Vec<u8>, radix: u8) -> (r: Result<u8, ParseNumError>)
    requires
        radix == 2 || radix == 16,
    ensures
        r == spec_radix_value(s@, radix),
{
    let n = s.len();
    if n == 0 {
        return Err(ParseNumError::Empty);
    }
    let mut acc: u32 = 0;
    let mut too_large = false;
    let mut i: usize = 0;
    while i < n
        invariant
            i <= n,
            n == s@.len(),
            radix == 2 || radix == 16,
            spec_radix_int(s@.take(i as int), radix) is Some,
            !too_large ==> acc <= 255 && spec_radix_int(s@.take(i as int), radix) == Some(
                acc as int,
            ),
            too_large ==> spec_radix_int(s@.take(i as int), radix)->Some_0 > 255,
        decreases n - i,
    {
        let b = s[i];
        let dv: u8 = if 0x30 <= b && b <= 0x39 {
            b - 0x30
        } else if 0x61 <= b && b <= 0x66 {
            b - 0x57
        } else {
            0xFF
        };
        if dv == 0xFF || dv >= radix {
            proof {
                assert(s@.take(i as int + 1).drop_last() =~= s@.take(i as int));
                assert(s@.take(i as int + 1).last() == s@[i as int]);
                assert(spec_digit_val(s@[i as int], radix) is None);
                lemma_radix_int_none(s@, radix, i as int + 1);
            }
            return Err(ParseNumError::InvalidDigit);
        }
        proof {
            assert(s@.take(i as int + 1).drop_last() =~= s@.take(i as int));
            assert(s@.take(i as int + 1).last() == s@[i as int]);
            assert(spec_digit_val(s@[i as int], radix) == Some(dv));
        }
        if too_large {
            proof {
                let v = spec_radix_int(s@.take(i as int), radix)->Some_0;
                assert(v * radix >= v) by (nonlinear_arith)
                    requires
                        v >= 0,
                        radix >= 1,
                ;
            }
        } else {
            let next = acc * (radix as u32) + (dv as u32);
            if next > 255 {
                too_large = true;
            } else {
                acc = next;
            }
        }
        i = i + 1;
    }
    proof {
        assert(s@.take(n as int) =~= s@);
    }
    if too_large {
        Err(ParseNumError::TooLarge)
    } else {
        Ok(acc as u8)
    }
}

/// Parse a command-line value: `true`/`t` and `false`/`f` (when a boolean is
/// expected), or a byte written as `0b...` binary (dashes allowed as
/// separators) or `0x...` hexadecimal, all case-insensitively.
pub fn parse_cli_arg_number(input: &str, is_bool: bool) -> (r: Result<u8, ParseNumError>)
    ensures
        r == spec_parse_cli_arg(input.spec_bytes(), is_bool),
{
    let bytes = input.as_bytes();
    let n = bytes.len();
    let mut low: Vec<u8> = Vec::new();
    let mut i: usize = 0;
    while i < n
        invariant
            i <= n,
            n == bytes@.len(),
            low@ == lower_bytes(bytes@.take(i as int)),
        decreases n - i,
    {
        let b = bytes[i];
        let lb = if 0x41 <= b && b <= 0x5A {
            b + 0x20
        } else {
            b
        };
        low.push(lb);
        proof {
            assert(low@ =~= lower_bytes(bytes@.take(i as int + 1)));
        }
        i = i + 1;
    }
    proof {
        assert(bytes@.take(n as int) =~= bytes@);
        assert(low@ == lower_bytes(input.spec_bytes()));
    }

    if is_bool {
        let kw_true: [u8; 4] = [0x74, 0x72, 0x75, 0x65];
        let kw_t: [u8; 1] = [0x74];
        let kw_false: [u8; 5] = [0x66, 0x61, 0x6C, 0x73, 0x65];
        let kw_f: [u8; 1] = [0x66];
        proof {
            assert(kw_true@ =~= spec_kw_true());
            assert(kw_t@ =~= spec_kw_t());
            assert(kw_false@ =~= spec_kw_false());
            assert(kw_f@ =~= spec_kw_f());
        }
        if bytes_eq(&low, kw_true.as_slice()) || bytes_eq(&low, kw_t.as_slice()) {
            return Ok(1);
        }
        if bytes_eq(&low, kw_false.as_slice()) || bytes_eq(&low, kw_f.as_slice()) {
            return Ok(0);
        }
    }

    if low.len() >= 2 && low[0] == 0x30 && low[1] == 0x62 {
        let stripped = strip_prefix_all(&low, 0x30, 0x62);
        let digits = strip_dashes(&stripped);
        parse_radix(&digits, 2)
    } else if low.len() >= 2 && low[0] == 0x30 && low[1] == 0x78 {
        let digits = strip_prefix_all(&low, 0x30, 0x78);
        parse_radix(&digits, 16)
    } else {
        Err(ParseNumError::NotANumber)
    }
}

/// Remove every leading repetition of the two-byte prefix `[p0, p1]`.
fn strip_prefix_all(s: &Vec<u8>, p0: u8, p1: u8) -> (r: Vec<u8>)
    ensures
        r@ == spec_strip_prefix_all(s@, seq![p0, p1]),
    decreases s@.len(),
{
    if s.len() >= 2 && s[0] == p0 && s[1] == p1 {
        proof {
            assert(seq![p0, p1].is_prefix_of(s@));
        }
        let mut rest: Vec<u8> = Vec::new();
        let n = s.len();
        let mut i: usize = 2;
        while i < n
            invariant
                2 <= i <= n,
                n == s@.len(),
                rest@ == s@.subrange(2, i as int),
            decreases n - i,
        {
            rest.push(s[i]);
            proof {
                assert(rest@ =~= s@.subrange(2, i as int + 1));
            }
            i = i + 1;
        }
        proof {
            assert(rest@ =~= s@.skip(2));
        }
        strip_prefix_all(&rest, p0, p1)
    } else {
        proof {
            assert(!(seq![p0, p1].is_prefix_of(s@)));
        }
        let mut out: Vec<u8> = Vec::new();
        let n = s.len();
        let mut i: usize = 0;
        while i < n
            invariant
                i <= n,
                n == s@.len(),
                out@ == s@.take(i as int),
            decreases n - i,
        {
            out.push(s[i]);
            proof {
                assert(out@ =~= s@.take(i as int + 1));
            }
            i = i + 1;
        }
        proof {
            assert(out@ =~= s@);
        }
        out
    }
}

/// Remove the dash bytes of `s`.
fn strip_dashes(s: &Vec<u8>) -> (r: Vec<u8>)
    ensures
        r@ == spec_strip_dashes(s@),
{
    let n = s.len();
    let mut out: Vec<u8> = Vec::new();
    let mut i: usize = 0;
    while i < n
        invariant
            i <= n,
            n == s@.len(),
            out@ == spec_strip_dashes(s@.take(i as int)),
        decreases n - i,
    {
        let b = s[i];
        if b != 0x2D {
            out.push(b);
        }
        proof {
            broadcast use Seq::lemma_filter_push;

            assert(s@.take(i as int + 1) =~= s@.take(i as int).push(s@[i as int]));
            assert(out@ =~= spec_strip_dashes(s@.take(i as int + 1)));
        }
        i = i + 1;
    }
    proof {
        assert(s@.take(n as int) =~= s@);
    }
    out
}

/// The capital hexadecimal digit character for `n`.
pub open spec fn hex_char(n: u8) -> char {
    if n < 10 {
        digit_char(n as int)
    } else if n == 10 {
        'A'
    } else if n == 11 {
        'B'
    } else if n == 12 {
        'C'
    } else if n == 13 {
        'D'
    } else if n == 14 {
        'E'
    } else {
        'F'
    }
}

fn hex_str(n: u8) -> (r: &'static str)
    requires
        n < 16,
    ensures
        r@ == seq![hex_char(n)],
{
    if n < 10 {
        digit_str(n as usize)
    } else {
        proof {
            reveal_strlit("A");
            reveal_strlit("B");
            reveal_strlit("C");
            reveal_strlit("D");
            reveal_strlit("E");
            reveal_strlit("F");
        }
        let r = match n {
            10 => "A",
            11 => "B",
            12 => "C",
            13 => "D",
            14 => "E",
            _ => "F",
        };
        proof {
            assert(r@ =~= seq![hex_char(n)]);
        }
        r
    }
}

/// The character for bit `bit` of `a`.
pub open spec fn bit_char(a: u8, bit: u8) -> char {
    if a & (1u8 << bit) != 0 {
        '1'
    } else {
        '0'
    }
}

/// The four binary digit characters of the nibble of `a` that starts at bit
/// `lo`, most significant first.
pub open spec fn nibble_bits(a: u8, lo: u8) -> Seq<char> {
    seq![
        bit_char(a, (lo + 3) as u8),
        bit_char(a, (lo + 2) as u8),
        bit_char(a, (lo + 1) as u8),
        bit_char(a, lo),
    ]
}

/// How `display_u8_hex` renders `a`: the hexadecimal value followed by both
/// binary nibbles, for example `0x4A(0b0100_1010)`.
pub open spec fn spec_display_u8_hex(a: u8) -> Seq<char> {
    "0x"@ + seq![hex_char(a / 16), hex_char(a % 16)] + "(0b"@ + nibble_bits(a, 4) + "_"@
        + nibble_bits(a, 0) + ")"@
}

fn bit_str(a: u8, bit: u8) -> (r: &'static str)
    requires
        bit < 8,
    ensures
        r@ == seq![bit_char(a, bit)],
{
    proof {
        reveal_strlit("0");
        reveal_strlit("1");
    }
    let r = if a & (1u8 << bit) != 0 {
        "1"
    } else {
        "0"
    };
    proof {
        assert(r@ =~= seq![bit_char(a, bit)]);
    }
    r
}

/// Render a register byte as hexadecimal plus binary nibbles, for example
/// `0x4A(0b0100_1010)`.
#[verifier::rlimit(60)]
pub fn display_u8_hex(a: u8) -> (r: String)
    ensures
        r@ == spec_display_u8_hex(a),
{
    proof {
        reveal_strlit("0x");
        reveal_strlit("(0b");
        reveal_strlit("_");
        reveal_strlit(")");
    }
    let mut s = String::from_str("0x");
    s.append(hex_str(a / 16));
    s.append(hex_str(a % 16));
    s.append("(0b");
    s.append(bit_str(a, 7));
    s.append(bit_str(a, 6));
    s.append(bit_str(a, 5));
    s.append(bit_str(a, 4));
    s.append("_");
    s.append(bit_str(a, 3));
    s.append(bit_str(a, 2));
    s.append(bit_str(a, 1));
    s.append(bit_str(a, 0));
    s.append(")");
    proof {
        assert(s@ =~= spec_display_u8_hex(a));
    }
    s
}

} // verus!
