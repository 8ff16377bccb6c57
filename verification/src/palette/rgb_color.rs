//! Parsing and rendering of `#rrggbb` color literals.

use vstd::prelude::*;

verus! {

/// A color as three bytes: red, green and blue.
///
/// A color is rendered as `#` followed by six lowercase hexadecimal
/// digits, whatever the case of the literal it was parsed from.
#[derive(Debug, Clone, Copy, PartialEq, Eq)]
pub struct RgbColor(pub [u8; 3]);

/// The error for a color literal that is not `#` followed by exactly six
/// hexadecimal digits.
///
/// A three-digit shorthand such as `#abc` is rejected: a literal must
/// spell out all six digits.
#[derive(Debug, Clone, Copy, PartialEq, Eq)]
pub struct RgbParsingError;

/// Whether `c` is an ASCII hexadecimal digit, in either case.
pub open spec fn is_hex_digit(c: char) -> bool {
    let u = c as u32;
    (48 <= u && u <= 57)  // '0' ..= '9'
    || (97 <= u && u <= 102)  // 'a' ..= 'f'
    || (65 <= u && u <= 70)  // 'A' ..= 'F'
}

/// The numeric value of a hexadecimal digit.
pub open spec fn hex_digit_value(c: char) -> int {
    let u = c as u32;
    if 48 <= u && u <= 57 {
        u - 48
    } else if 97 <= u && u <= 102 {
        u - 87
    } else if 65 <= u && u <= 70 {
        u - 55
    } else {
        0
    }
}

/// Whether `s` is a valid color literal: `#` and six hexadecimal digits.
pub open spec fn spec_rgb_literal(s: Seq<char>) -> bool {
    s.len() == 7 && s[0] == '#' && (forall|i: int| 1 <= i < 7 ==> is_hex_digit(#[trigger] s[i]))
}

/// The three bytes encoded by a valid color literal, high digit first.
pub open spec fn spec_rgb_bytes(s: Seq<char>) -> Seq<u8> {
    seq![
        (16 * hex_digit_value(s[1]) + hex_digit_value(s[2])) as u8,
        (16 * hex_digit_value(s[3]) + hex_digit_value(s[4])) as u8,
        (16 * hex_digit_value(s[5]) + hex_digit_value(s[6])) as u8,
    ]
}

/// Relies on `hex::FromHex` for `[u8; 3]`: a string of exactly six
/// hexadecimal digits (either case) decodes to three bytes, each from one
/// digit pair, high digit first; every other input is rejected.
#[verifier::external_body]
pub(crate) fn hex_decode_rgb(s: &str) -> (r: Option<[u8; 3]>)
    ensures
        r is Some <==> (s@.len() == 6 && (forall|i: int|
            0 <= i < 6 ==> is_hex_digit(#[trigger] s@[i]))),
        r is Some ==> (r->0)@ == seq![
            (16 * hex_digit_value(s@[0]) + hex_digit_value(s@[1])) as u8,
            (16 * hex_digit_value(s@[2]) + hex_digit_value(s@[3])) as u8,
            (16 * hex_digit_value(s@[4]) + hex_digit_value(s@[5])) as u8,
        ],
{
    match <[u8; 3] as hex::FromHex>::from_hex(s) {
        Ok(b) => Some(b),
        Err(_) => None,
    }
}

impl RgbColor {
    /// Parses a literal of the form `#rrggbb`, digits in either case.
    pub fn from_str(s: &str) -> (r: Result<RgbColor, RgbParsingError>)
        ensures
            spec_rgb_literal(s@) ==> r is Ok && (r->Ok_0).0@ == spec_rgb_bytes(s@),
            !spec_rgb_literal(s@) ==> r is Err,
    {
        let n = s.unicode_len();
        if n == 0 || s.get_char(0) != '#' {
            return Err(RgbParsingError);
        }
        let digits = s.substring_char(1, n);
        match hex_decode_rgb(digits) {
            Some(b) => {
                proof {
                    assert forall|i: int| 1 <= i < 7 implies is_hex_digit(#[trigger] s@[i]) by {
                        assert(digits@[i - 1] == s@[i]);
                    }
                    assert(b@ =~= spec_rgb_bytes(s@));
                }
                Ok(RgbColor(b))
            },
            None => {
                proof {
                    if spec_rgb_literal(s@) {
                        assert forall|i: int| 0 <= i < 6 implies is_hex_digit(
                            #[trigger] digits@[i],
                        ) by {
                            assert(digits@[i] == s@[i + 1]);
                        }
                    }
                }
                Err(RgbParsingError)
            },
        }
    }
}

/// The lowercase hexadecimal digit for a value below sixteen.
pub open spec fn hex_char_of(v: int) -> char {
    if v == 0 {
        '0'
    } else if v == 1 {
        '1'
    } else if v == 2 {
        '2'
    } else if v == 3 {
        '3'
    } else if v == 4 {
        '4'
    } else if v == 5 {
        '5'
    } else if v == 6 {
        '6'
    } else if v == 7 {
        '7'
    } else if v == 8 {
        '8'
    } else if v == 9 {
        '9'
    } else if v == 10 {
        'a'
    } else if v == 11 {
        'b'
    } else if v == 12 {
        'c'
    } else if v == 13 {
        'd'
    } else if v == 14 {
        'e'
    } else {
        'f'
    }
}

/// The two lowercase hexadecimal digits of one byte.
pub open spec fn spec_hex_pair(b: u8) -> Seq<char> {
    seq![hex_char_of(b as int / 16), hex_char_of(b as int % 16)]
}

/// The rendering of a color: `#` and six lowercase hexadecimal digits.
pub open spec fn spec_render_rgb(c: RgbColor) -> Seq<char> {
    seq!['#'] + spec_hex_pair(c.0@[0]) + spec_hex_pair(c.0@[1]) + spec_hex_pair(c.0@[2])
}

/// One lowercase hexadecimal digit as a string slice.
pub(crate) fn hex_digit_str(v: u8) -> (r: &'static str)
    requires
        v < 16,
    ensures
        r@ == seq![hex_char_of(v as int)],
{
    let r: &'static str = match v {
        0 => "0",
        1 => "1",
        2 => "2",
        3 => "3",
        4 => "4",
        5 => "5",
        6 => "6",
        7 => "7",
        8 => "8",
        9 => "9",
        10 => "a",
        11 => "b",
        12 => "c",
        13 => "d",
        14 => "e",
        _ => "f",
    };
    proof {
        reveal_strlit("0");
        reveal_strlit("1");
        reveal_strlit("2");
        reveal_strlit("3");
        reveal_strlit("4");
        reveal_strlit("5");
        reveal_strlit("6");
        reveal_strlit("7");
        reveal_strlit("8");
        reveal_strlit("9");
        reveal_strlit("a");
        reveal_strlit("b");
        reveal_strlit("c");
        reveal_strlit("d");
        reveal_strlit("e");
        reveal_strlit("f");
        assert(r@ =~= seq![hex_char_of(v as int)]);
    }
    r
}

impl RgbColor {
    /// Renders the color as `#` followed by six lowercase hexadecimal
    /// digits.
    pub fn render(&self) -> (r: String)
        ensures
            r@ == spec_render_rgb(*self),
    {
        let mut out = String::from_str("#");
        proof {
            reveal_strlit("#");
        }
        out.append(hex_digit_str(self.0[0] / 16));
        out.append(hex_digit_str(self.0[0] % 16));
        out.append(hex_digit_str(self.0[1] / 16));
        out.append(hex_digit_str(self.0[1] % 16));
        out.append(hex_digit_str(self.0[2] / 16));
        out.append(hex_digit_str(self.0[2] % 16));
        proof {
            assert(out@ =~= spec_render_rgb(*self));
        }
        out
    }
}

impl RgbParsingError {
    /// The human-readable description of the error.
    pub fn message(&self) -> (r: String)
        ensures
            r@ == "failed to parse a hex color"@,
    {
        String::from_str("failed to parse a hex color")
    }
}

/// The lowercase form of a hexadecimal digit; other characters are kept.
pub open spec fn lower_hex(c: char) -> char {
    if c == 'A' {
        'a'
    } else if c == 'B' {
        'b'
    } else if c == 'C' {
        'c'
    } else if c == 'D' {
        'd'
    } else if c == 'E' {
        'e'
    } else if c == 'F' {
        'f'
    } else {
        c
    }
}

/// Law: decoding a valid literal and rendering the decoded color gives
/// the lowercase form of that literal.
#[verifier::rlimit(50)]
pub proof fn lemma_rgb_round_trip(s: Seq<char>, c: RgbColor)
    requires
        spec_rgb_literal(s),
        c.0@ == spec_rgb_bytes(s),
    ensures
        spec_render_rgb(c) == seq![
            '#',
            lower_hex(s[1]),
            lower_hex(s[2]),
            lower_hex(s[3]),
            lower_hex(s[4]),
            lower_hex(s[5]),
            lower_hex(s[6]),
        ],
{
    lemma_hex_pair_round_trip(s[1], s[2]);
    lemma_hex_pair_round_trip(s[3], s[4]);
    lemma_hex_pair_round_trip(s[5], s[6]);
    assert(spec_render_rgb(c) =~= seq![
        '#',
        lower_hex(s[1]),
        lower_hex(s[2]),
        lower_hex(s[3]),
        lower_hex(s[4]),
        lower_hex(s[5]),
        lower_hex(s[6]),
    ]);
}

/// The byte of two hexadecimal digits renders back as their lowercase
/// forms.
proof fn lemma_hex_pair_round_trip(hi: char, lo: char)
    requires
        is_hex_digit(hi),
        is_hex_digit(lo),
    ensures
        spec_hex_pair((16 * hex_digit_value(hi) + hex_digit_value(lo)) as u8) == seq![
            lower_hex(hi),
            lower_hex(lo),
        ],
{
    let b = (16 * hex_digit_value(hi) + hex_digit_value(lo)) as u8;
    assert(0 <= hex_digit_value(hi) <= 15);
    assert(0 <= hex_digit_value(lo) <= 15);
    assert(b as int / 16 == hex_digit_value(hi));
    assert(b as int % 16 == hex_digit_value(lo));
    lemma_hex_char_lower(hi);
    lemma_hex_char_lower(lo);
    assert(spec_hex_pair(b) =~= seq![lower_hex(hi), lower_hex(lo)]);
}

/// The digit for the value of a hexadecimal digit is its lowercase form.
proof fn lemma_hex_char_lower(c: char)
    requires
        is_hex_digit(c),
    ensures
        hex_char_of(hex_digit_value(c)) == lower_hex(c),
{
}

} // verus!
