//! The [`RGB`] color type and parsing of hex color strings.

use vstd::prelude::*;
use vstd::string::{StrSliceExecFns, StringExecFns};
use vstd::utf8::is_ascii_chars;

use crate::text::push_char;

verus! {

/// True of an ASCII hexadecimal digit, of either case.
pub open spec fn is_hex_digit(c: char) -> bool {
    ('0' <= c && c <= '9') || ('a' <= c && c <= 'f') || ('A' <= c && c <= 'F')
}

/// The numeric value of a hexadecimal digit.
pub open spec fn hex_digit_value(c: char) -> int {
    if '0' <= c && c <= '9' {
        c as int - '0' as int
    } else if 'a' <= c && c <= 'f' {
        c as int - 'a' as int + 10
    } else {
        c as int - 'A' as int + 10
    }
}

/// `s` without a single leading `#`, if one is there.
pub open spec fn strip_hash(s: Seq<char>) -> Seq<char> {
    if s.len() > 0 && s[0] == '#' { s.drop_first() } else { s }
}

/// True if the two-digit group of channel `k` in the six-digit sequence `t`
/// is valid hexadecimal.
pub open spec fn pair_is_hex(t: Seq<char>, k: int) -> bool {
    is_hex_digit(t[2 * k]) && is_hex_digit(t[2 * k + 1])
}

/// The value of the two-digit group of channel `k` in `t`.
pub open spec fn pair_value(t: Seq<char>, k: int) -> int {
    16 * hex_digit_value(t[2 * k]) + hex_digit_value(t[2 * k + 1])
}

/// What parsing a hex color string returns: the color, or the exact reason
/// the string is rejected. The string may carry one optional leading `#`;
/// after stripping it, exactly six case-insensitive hexadecimal digits are
/// expected, two per channel in the order red, green, blue.
pub open spec fn parse_spec(s: Seq<char>) -> Result<RGB, RGBErrorKind> {
    if !is_ascii_chars(s) {
        Err(RGBErrorKind::Invalid)
    } else {
        let t = strip_hash(s);
        if t.len() != 6 {
            Err(RGBErrorKind::Size)
        } else if !pair_is_hex(t, 0) {
            Err(RGBErrorKind::Format { pos: 0, error: HexDigitError::InvalidDigit })
        } else if !pair_is_hex(t, 1) {
            Err(RGBErrorKind::Format { pos: 1, error: HexDigitError::InvalidDigit })
        } else if !pair_is_hex(t, 2) {
            Err(RGBErrorKind::Format { pos: 2, error: HexDigitError::InvalidDigit })
        } else {
            Ok(
                RGB {
                    r: pair_value(t, 0) as u8,
                    g: pair_value(t, 1) as u8,
                    b: pair_value(t, 2) as u8,
                },
            )
        }
    }
}

/// The lowercase character for a single hexadecimal digit.
pub open spec fn hex_digit_char(v: int) -> char {
    if v == 0 {
        '0'
    } else if v == 1 {
        '1'
    } else if v == 2 {
        '2'
    } else if v == 3 {
        '3'
    } else if v == 4 {
        '4'
    } else if v == 5 {
        '5'
    } else if v == 6 {
        '6'
    } else if v == 7 {
        '7'
    } else if v == 8 {
        '8'
    } else if v == 9 {
        '9'
    } else if v == 10 {
        'a'
    } else if v == 11 {
        'b'
    } else if v == 12 {
        'c'
    } else if v == 13 {
        'd'
    } else if v == 14 {
        'e'
    } else {
        'f'
    }
}

/// The six lowercase hexadecimal digits of a color, two per channel.
pub open spec fn hex_spec(c: RGB) -> Seq<char> {
    seq![
        hex_digit_char(c.r as int / 16),
        hex_digit_char(c.r as int % 16),
        hex_digit_char(c.g as int / 16),
        hex_digit_char(c.g as int % 16),
        hex_digit_char(c.b as int / 16),
        hex_digit_char(c.b as int % 16),
    ]
}

/// Red Green Blue
#[derive(Debug, Clone, Copy, PartialEq, Eq, Structural)]
pub struct RGB {
    /// Red
    pub r: u8,
    /// Green
    pub g: u8,
    /// Blue
    pub b: u8,
}

impl RGB {
    /// Creates a new [`RGB`].
    pub fn new(r: u8, g: u8, b: u8) -> (c: Self)
        ensures
            c == (RGB { r, g, b }),
    {
        RGB { r, g, b }
    }
}

fn hex_val(c: char) -> (r: Option<u8>)
    ensures
        r is Some <==> is_hex_digit(c),
        r is Some ==> 0 <= hex_digit_value(c) < 16 && r->0 == hex_digit_value(c),
{
    let u = c as u32;
    if 48 <= u && u <= 57 {
        Some((u - 48) as u8)
    } else if 97 <= u && u <= 102 {
        Some((u - 97 + 10) as u8)
    } else if 65 <= u && u <= 70 {
        Some((u - 65 + 10) as u8)
    } else {
        None
    }
}

fn parse_pair(t: &str, k: usize) -> (r: Option<u8>)
    requires
        t@.len() == 6,
        k <= 2,
    ensures
        r is Some <==> pair_is_hex(t@, k as int),
        r is Some ==> r->0 == pair_value(t@, k as int),
{
    let hi = hex_val(t.get_char(2 * k));
    let lo = hex_val(t.get_char(2 * k + 1));
    match (hi, lo) {
        (Some(h), Some(l)) => Some(16 * h + l),
        _ => None,
    }
}

fn exec_hex_digit_char(v: u8) -> (c: char)
    requires
        v < 16,
    ensures
        c == hex_digit_char(v as int),
{
    if v == 0 {
        '0'
    } else if v == 1 {
        '1'
    } else if v == 2 {
        '2'
    } else if v == 3 {
        '3'
    } else if v == 4 {
        '4'
    } else if v == 5 {
        '5'
    } else if v == 6 {
        '6'
    } else if v == 7 {
        '7'
    } else if v == 8 {
        '8'
    } else if v == 9 {
        '9'
    } else if v == 10 {
        'a'
    } else if v == 11 {
        'b'
    } else if v == 12 {
        'c'
    } else if v == 13 {
        'd'
    } else if v == 14 {
        'e'
    } else {
        'f'
    }
}

fn push_hex_byte(s: &mut String, v: u8)
    ensures
        final(s)@ == old(s)@ + seq![hex_digit_char(v as int / 16), hex_digit_char(v as int % 16)],
{
    let c0 = exec_hex_digit_char(v / 16);
    push_char(s, c0);
    let c1 = exec_hex_digit_char(v % 16);
    push_char(s, c1);
    proof {
        assert(final(s)@ =~= old(s)@ + seq![
            hex_digit_char(v as int / 16),
            hex_digit_char(v as int % 16),
        ]);
    }
}

impl RGB {
    /// Parses a color from six case-insensitive hexadecimal digits, two per
    /// channel, with one optional leading `#`.
    pub fn from_str(s: &str) -> (r: Result<RGB, ParseRGBError>)
        ensures
            r matches Ok(c) ==> parse_spec(s@) == Ok::<RGB, RGBErrorKind>(c),
            r matches Err(e) ==> parse_spec(s@) == Err::<RGB, RGBErrorKind>(e.spec_kind()),
    {
        if !s.is_ascii() {
            return Err(ParseRGBError::new(RGBErrorKind::Invalid));
        }
        let n = s.unicode_len();
        let t: &str = if n >= 1 && s.get_char(0) == '#' {
            s.substring_ascii(1, n)
        } else {
            s
        };
        proof {
            assert(t@ =~= strip_hash(s@));
        }
        if t.unicode_len() != 6 {
            return Err(ParseRGBError::new(RGBErrorKind::Size));
        }
        let r = match parse_pair(t, 0) {
            Some(v) => v,
            None => {
                return Err(
                    ParseRGBError::new(
                        RGBErrorKind::Format { pos: 0, error: HexDigitError::InvalidDigit },
                    ),
                );
            },
        };
        let g = match parse_pair(t, 1) {
            Some(v) => v,
            None => {
                return Err(
                    ParseRGBError::new(
                        RGBErrorKind::Format { pos: 1, error: HexDigitError::InvalidDigit },
                    ),
                );
            },
        };
        let b = match parse_pair(t, 2) {
            Some(v) => v,
            None => {
                return Err(
                    ParseRGBError::new(
                        RGBErrorKind::Format { pos: 2, error: HexDigitError::InvalidDigit },
                    ),
                );
            },
        };
        Ok(RGB { r, g, b })
    }

    /// The six lowercase hexadecimal digits of this color, two per channel.
    pub fn hex(&self) -> (out: String)
        ensures
            out@ == hex_spec(*self),
    {
        let mut out = String::new();
        push_hex_byte(&mut out, self.r);
        push_hex_byte(&mut out, self.g);
        push_hex_byte(&mut out, self.b);
        proof {
            assert(out@ =~= hex_spec(*self));
        }
        out
    }
}

impl core::str::FromStr for RGB {
    type Err = ParseRGBError;

    fn from_str(s: &str) -> Result<Self, Self::Err> {
        RGB::from_str(s)
    }
}

impl Default for RGB {
    /// Black, the color with every channel at zero.
    fn default() -> (c: Self)
        ensures
            c == (RGB { r: 0, g: 0, b: 0 }),
    {
        RGB { r: 0, g: 0, b: 0 }
    }
}

impl From<(u8, u8, u8)> for RGB {
    fn from(t: (u8, u8, u8)) -> (c: Self) {
        RGB { r: t.0, g: t.1, b: t.2 }
    }
}

impl vstd::std_specs::convert::FromSpecImpl<(u8, u8, u8)> for RGB {
    open spec fn obeys_from_spec() -> bool {
        true
    }

    open spec fn from_spec(t: (u8, u8, u8)) -> Self {
        RGB { r: t.0, g: t.1, b: t.2 }
    }
}

/// The reason a hex color string failed to parse.
#[derive(Debug, Clone, PartialEq, Eq, Structural)]
pub enum RGBErrorKind {
    /// After an optional leading `#`, the string does not have exactly six
    /// characters.
    Size,
    /// The string contains non-ASCII content.
    Invalid,
    /// The two-digit group of channel `pos` (0 = red, 1 = green, 2 = blue) is
    /// not valid hexadecimal; `error` is the underlying digit failure.
    Format {
        /// Index of the channel whose digits failed to parse.
        pos: usize,
        /// The underlying failure of parsing the two-digit group.
        error: HexDigitError,
    },
}

/// The failure of reading a two-digit hexadecimal group.
#[derive(Debug, Clone, Copy, PartialEq, Eq, Structural)]
pub enum HexDigitError {
    /// A character of the group is not a hexadecimal digit.
    InvalidDigit,
}

/// `c` with an uppercase hexadecimal digit folded to lowercase; any other
/// character is left alone.
pub open spec fn lower_hex_char(c: char) -> char {
    if c == 'A' {
        'a'
    } else if c == 'B' {
        'b'
    } else if c == 'C' {
        'c'
    } else if c == 'D' {
        'd'
    } else if c == 'E' {
        'e'
    } else if c == 'F' {
        'f'
    } else {
        c
    }
}

proof fn lemma_hex_digit_round(c: char)
    requires
        is_hex_digit(c),
    ensures
        0 <= hex_digit_value(c) < 16,
        hex_digit_char(hex_digit_value(c)) == lower_hex_char(c),
{
}

/// Round trip: a string that parses as a color re-serializes, through
/// [`RGB::hex`], to the very digits it holds after the optional `#` is
/// stripped, with uppercase digits folded to lowercase.
pub proof fn lemma_parse_hex_round_trip(s: Seq<char>)
    requires
        parse_spec(s) is Ok,
    ensures
        hex_spec(parse_spec(s)->Ok_0) == strip_hash(s).map_values(|c: char| lower_hex_char(c)),
{
    let t = strip_hash(s);
    let c = parse_spec(s)->Ok_0;
    assert forall|k: int| 0 <= k < 3 implies {
        &&& hex_digit_char(pair_value(t, k) / 16) == lower_hex_char(t[2 * k])
        &&& hex_digit_char(pair_value(t, k) % 16) == lower_hex_char(t[2 * k + 1])
        &&& 0 <= pair_value(t, k) < 256
    } by {
        let hi = hex_digit_value(t[2 * k]);
        let lo = hex_digit_value(t[2 * k + 1]);
        lemma_hex_digit_round(t[2 * k]);
        lemma_hex_digit_round(t[2 * k + 1]);
        assert((16 * hi + lo) / 16 == hi && (16 * hi + lo) % 16 == lo) by (nonlinear_arith)
            requires
                0 <= hi < 16,
                0 <= lo < 16,
        ;
    }
    assert(hex_spec(c) =~= t.map_values(|d: char| lower_hex_char(d)));
}

/// An error returned when a hex color string cannot be parsed.
#[derive(Debug, Clone, PartialEq, Eq, Structural)]
pub struct ParseRGBError {
    kind: RGBErrorKind,
}

/// The human-readable description of each parse failure.
pub open spec fn message_spec(kind: RGBErrorKind) -> Seq<char> {
    match kind {
        RGBErrorKind::Size => "cannot parse rgb from string with size not equal to 6 (or 7 if '#' is used)"@,
        RGBErrorKind::Invalid => "invalid string which contains UTF8 symbols"@,
        RGBErrorKind::Format { pos, error: _ } => "invalid digit found in string on position "@
            + crate::text::decimal_chars(pos as int),
    }
}

impl ParseRGBError {
    /// The cause held by this error, as a spec-level value.
    pub closed spec fn spec_kind(&self) -> RGBErrorKind {
        self.kind
    }

    /// A human-readable description of this error.
    pub fn message(&self) -> (out: String)
        ensures
            out@ == message_spec(self.spec_kind()),
    {
        match &self.kind {
            RGBErrorKind::Size => String::from_str(
                "cannot parse rgb from string with size not equal to 6 (or 7 if '#' is used)",
            ),
            RGBErrorKind::Invalid => String::from_str("invalid string which contains UTF8 symbols"),
            RGBErrorKind::Format { pos, error: _ } => {
                let mut out = String::from_str("invalid digit found in string on position ");
                let p: usize = *pos;
                crate::text::push_decimal(&mut out, p as u64);
                out
            },
        }
    }

    pub(crate) fn new(kind: RGBErrorKind) -> (e: Self)
        ensures
            e.spec_kind() == kind,
    {
        ParseRGBError { kind }
    }

    /// Outputs the detailed cause of parsing an integer failing.
    #[must_use]
    pub fn kind(&self) -> (k: &RGBErrorKind)
        ensures
            *k == self.spec_kind(),
    {
        &self.kind
    }
}

} // verus!
