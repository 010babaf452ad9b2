use vstd::prelude::*;

verus! {

/// One character sequence per decimal digit, shared between executable code
/// and specifications so that rendered text can be pinned down exactly.
pub open spec fn digit_str(d: int) -> Seq<char> {
    if d == 0 {
        "0"@
    } else if d == 1 {
        "1"@
    } else if d == 2 {
        "2"@
    } else if d == 3 {
        "3"@
    } else if d == 4 {
        "4"@
    } else if d == 5 {
        "5"@
    } else if d == 6 {
        "6"@
    } else if d == 7 {
        "7"@
    } else if d == 8 {
        "8"@
    } else {
        "9"@
    }
}

/// Decimal digits of `n`, most significant first, a single "0" for zero.
pub open spec fn dec_digits(n: nat) -> Seq<char>
    decreases n,
{
    if n < 10 {
        digit_str(n as int)
    } else {
        dec_digits(n / 10) + digit_str((n % 10) as int)
    }
}

/// A fixed-point score carried in hundredths, rendered with two decimal
/// places: 70 becomes "0.70", 100 becomes "1.00".
pub open spec fn score_text(h: nat) -> Seq<char> {
    dec_digits(h / 100) + "."@ + digit_str(((h / 10) % 10) as int) + digit_str((h % 10) as int)
}

/// A signed millisecond count in decimal, with a leading "-" when negative.
pub open spec fn millis_text(ms: int) -> Seq<char> {
    if ms < 0 {
        "-"@ + dec_digits((-ms) as nat)
    } else {
        dec_digits(ms as nat)
    }
}

/// One character sequence per hexadecimal digit, lowercase.
pub open spec fn hex_digit_str(d: int) -> Seq<char> {
    if d < 10 {
        digit_str(d)
    } else if d == 10 {
        "a"@
    } else if d == 11 {
        "b"@
    } else if d == 12 {
        "c"@
    } else if d == 13 {
        "d"@
    } else if d == 14 {
        "e"@
    } else {
        "f"@
    }
}

/// The low `width` hexadecimal digits of `v`, zero padded, most significant
/// first.
pub open spec fn hex_pad(v: nat, width: nat) -> Seq<char>
    decreases width,
{
    if width == 0 {
        Seq::empty()
    } else {
        hex_pad(v / 16, (width - 1) as nat) + hex_digit_str((v % 16) as int)
    }
}

/// The canonical hyphenated text of a 128-bit identifier, in the usual
/// 8-4-4-4-12 grouping of lowercase hexadecimal digits.
pub open spec fn id_text(id: nat) -> Seq<char> {
    hex_pad(id / 0x1000000000000000000000000, 8) + "-"@ + hex_pad(id / 0x100000000000000000000, 4)
        + "-"@ + hex_pad(id / 0x10000000000000000, 4) + "-"@ + hex_pad(id / 0x1000000000000, 4)
        + "-"@ + hex_pad(id, 12)
}

fn digit_literal(d: u64) -> (r: &'static str)
    requires
        d < 10,
    ensures
        r@ == digit_str(d as int),
{
    match d {
        0 => "0",
        1 => "1",
        2 => "2",
        3 => "3",
        4 => "4",
        5 => "5",
        6 => "6",
        7 => "7",
        8 => "8",
        _ => "9",
    }
}

pub(crate) fn hex_digit_literal(d: u64) -> (r: &'static str)
    requires
        d < 16,
    ensures
        r@ == hex_digit_str(d as int),
{
    if d < 10 {
        digit_literal(d)
    } else {
        match d {
            10 => "a",
            11 => "b",
            12 => "c",
            13 => "d",
            14 => "e",
            _ => "f",
        }
    }
}

pub fn u64_text(n: u64) -> (s: String)
    ensures
        s@ == dec_digits(n as nat),
    decreases n,
{
    if n < 10 {
        String::from_str(digit_literal(n))
    } else {
        let mut s = u64_text(n / 10);
        s.append(digit_literal(n % 10));
        s
    }
}

pub fn u32_text(n: u32) -> (s: String)
    ensures
        s@ == dec_digits(n as nat),
{
    u64_text(n as u64)
}

pub fn score_string(h: u32) -> (s: String)
    ensures
        s@ == score_text(h as nat),
{
    let mut s = u64_text((h / 100) as u64);
    s.append(".");
    s.append(digit_literal(((h / 10) % 10) as u64));
    s.append(digit_literal((h % 10) as u64));
    s
}

pub fn millis_string(ms: i64) -> (s: String)
    ensures
        s@ == millis_text(ms as int),
{
    if ms < 0 {
        let wide: i128 = ms as i128;
        let magnitude: u64 = (-wide) as u64;
        let mut s = String::from_str("-");
        let digits = u64_text(magnitude);
        s.append(digits.as_str());
        s
    } else {
        u64_text(ms as u64)
    }
}

fn hex_pad_string(v: u128, width: u32) -> (s: String)
    ensures
        s@ == hex_pad(v as nat, width as nat),
    decreases width,
{
    if width == 0 {
        String::new()
    } else {
        let mut s = hex_pad_string(v / 16, width - 1);
        s.append(hex_digit_literal((v % 16) as u64));
        s
    }
}

/// The hyphenated text of a node or session identifier, matching the
/// canonical rendering of a 128-bit UUID.
pub fn id_string(id: u128) -> (s: String)
    ensures
        s@ == id_text(id as nat),
{
    let mut s = hex_pad_string(id / 0x1000000000000000000000000, 8);
    s.append("-");
    let g2 = hex_pad_string(id / 0x100000000000000000000, 4);
    s.append(g2.as_str());
    s.append("-");
    let g3 = hex_pad_string(id / 0x10000000000000000, 4);
    s.append(g3.as_str());
    s.append("-");
    let g4 = hex_pad_string(id / 0x1000000000000, 4);
    s.append(g4.as_str());
    s.append("-");
    let g5 = hex_pad_string(id, 12);
    s.append(g5.as_str());
    s
}

}
