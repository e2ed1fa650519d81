//! Theme colors written as hex: `#rgb`, `#rgba`, `#rrggbb` or `#rrggbbaa`.

use crate::text::{chars_of, clean_ends, lemma_trim_of_clean, trim, trim_chars};
use vstd::prelude::*;

verus! {

/// A color with 8-bit red, green, blue and alpha channels.
#[derive(Clone, Copy, Debug, PartialEq, Eq, Structural)]
pub struct Rgba8 {
    pub r: u8,
    pub g: u8,
    pub b: u8,
    pub a: u8,
}

/// Why a color did not parse.
#[derive(Clone, Copy, Debug, PartialEq, Eq, Structural)]
pub enum ColorError {
    /// Not a `#` followed by three, four, six or eight hex digits.
    InvalidFormat,
    /// A digit that is not a hex digit.
    InvalidDigit,
}

/// An ASCII hex digit.
pub open spec fn is_hex(c: char) -> bool {
    ('0' <= c && c <= '9') || ('a' <= c && c <= 'f') || ('A' <= c && c <= 'F')
}

/// The value of a hex digit.
pub open spec fn hex_value(c: char) -> nat {
    if '0' <= c && c <= '9' {
        (c as u32 - '0' as u32) as nat
    } else if 'a' <= c && c <= 'f' {
        (c as u32 - 'a' as u32 + 10) as nat
    } else {
        (c as u32 - 'A' as u32 + 10) as nat
    }
}

/// The value of a two-character component, parsed as a base-16 `u8`: two
/// hex digits, or a `+` sign and one.
pub open spec fn component(a: char, b: char) -> Option<nat> {
    if is_hex(a) && is_hex(b) {
        Some(16 * hex_value(a) + hex_value(b))
    } else if a == '+' && is_hex(b) {
        Some(hex_value(b))
    } else {
        None
    }
}

/// Every character is ASCII.
pub open spec fn all_ascii(s: Seq<char>) -> bool {
    forall|i: int| 0 <= i < s.len() ==> (s[i] as u32) < 0x80
}

/// The color `s` denotes. After trimming it must start with `#`. Three or
/// four hex digits give each channel as a doubled digit (`#f80` is
/// `#ff8800`), with alpha `f` when there is no fourth; six or eight give
/// each channel as two digits, with alpha `ff` when there are six.
pub open spec fn parsed_color(s: Seq<char>) -> Result<Rgba8, ColorError> {
    let t = trim(s);
    if t.len() == 0 || t[0] != '#' {
        Err(ColorError::InvalidFormat)
    } else {
        let h = t.drop_first();
        if !all_ascii(h) {
            if h.len() == 3 || h.len() == 4 || h.len() == 6 || h.len() == 8 {
                Err(ColorError::InvalidDigit)
            } else {
                Err(ColorError::InvalidFormat)
            }
        } else if h.len() == 3 || h.len() == 4 {
            if is_hex(h[0]) && is_hex(h[1]) && is_hex(h[2]) && (h.len() == 3 || is_hex(h[3])) {
                Ok(
                    Rgba8 {
                        r: (17 * hex_value(h[0])) as u8,
                        g: (17 * hex_value(h[1])) as u8,
                        b: (17 * hex_value(h[2])) as u8,
                        a: (if h.len() == 4 { 17 * hex_value(h[3]) } else { 255 }) as u8,
                    },
                )
            } else {
                Err(ColorError::InvalidDigit)
            }
        } else if h.len() == 6 || h.len() == 8 {
            if component(h[0], h[1]) is Some && component(h[2], h[3]) is Some && component(
                h[4],
                h[5],
            ) is Some && (h.len() == 6 || component(h[6], h[7]) is Some) {
                Ok(
                    Rgba8 {
                        r: component(h[0], h[1])->0 as u8,
                        g: component(h[2], h[3])->0 as u8,
                        b: component(h[4], h[5])->0 as u8,
                        a: (if h.len() == 8 { component(h[6], h[7])->0 } else { 255 }) as u8,
                    },
                )
            } else {
                Err(ColorError::InvalidDigit)
            }
        } else {
            Err(ColorError::InvalidFormat)
        }
    }
}

/// The value of `c` when it is a hex digit.
fn hex_digit(c: char) -> (r: Option<u8>)
    ensures
        r is Some <==> is_hex(c),
        r matches Some(v) ==> v == hex_value(c) && v < 16,
{
    if '0' <= c && c <= '9' {
        Some(((c as u32) - ('0' as u32)) as u8)
    } else if 'a' <= c && c <= 'f' {
        Some(((c as u32) - ('a' as u32) + 10) as u8)
    } else if 'A' <= c && c <= 'F' {
        Some(((c as u32) - ('A' as u32) + 10) as u8)
    } else {
        None
    }
}

/// The value of a two-character component.
fn component_value(a: char, b: char) -> (r: Option<u8>)
    ensures
        match r {
            Some(v) => component(a, b) == Some(v as nat),
            None => component(a, b) is None,
        },
{
    match (hex_digit(a), hex_digit(b)) {
        (Some(x), Some(y)) => Some(16 * x + y),
        (None, Some(y)) => if a == '+' {
            Some(y)
        } else {
            None
        },
        _ => None,
    }
}

/// A one-digit channel doubled (`f` gives `ff`).
fn doubled(c: char) -> (r: Option<u8>)
    ensures
        r is Some <==> is_hex(c),
        r matches Some(v) ==> v == 17 * hex_value(c),
{
    match hex_digit(c) {
        Some(v) => Some(17 * v),
        None => None,
    }
}

/// Parses a theme color written as hex.
pub fn try_parse_color(color: &str) -> (r: Result<Rgba8, ColorError>)
    ensures
        r == parsed_color(color@),
{
    let t = trim_chars(chars_of(color).as_slice());
    if t.len() == 0 || t[0] != '#' {
        return Err(ColorError::InvalidFormat);
    }
    let n = t.len() - 1;
    let ghost h = t@.drop_first();
    let mut ascii = true;
    let mut i: usize = 1;
    while i < t.len()
        invariant
            1 <= i <= t@.len(),
            h == t@.drop_first(),
            ascii <==> forall|k: int| 0 <= k < i - 1 ==> (h[k] as u32) < 0x80,
        decreases t@.len() - i,
    {
        assert(h[i - 1] == t@[i as int]);
        if (t[i] as u32) >= 0x80 {
            ascii = false;
        }
        i = i + 1;
    }
    if !ascii {
        if n == 3 || n == 4 || n == 6 || n == 8 {
            return Err(ColorError::InvalidDigit);
        }
        return Err(ColorError::InvalidFormat);
    }
    assert(forall|k: int| 0 <= k < h.len() ==> h[k] == t@[k + 1]);
    if n == 3 || n == 4 {
        let r = doubled(t[1]);
        let g = doubled(t[2]);
        let b = doubled(t[3]);
        let a = if n == 4 {
            doubled(t[4])
        } else {
            Some(255u8)
        };
        match (r, g, b, a) {
            (Some(r), Some(g), Some(b), Some(a)) => Ok(Rgba8 { r, g, b, a }),
            _ => Err(ColorError::InvalidDigit),
        }
    } else if n == 6 || n == 8 {
        let r = component_value(t[1], t[2]);
        let g = component_value(t[3], t[4]);
        let b = component_value(t[5], t[6]);
        let a = if n == 8 {
            component_value(t[7], t[8])
        } else {
            Some(255u8)
        };
        match (r, g, b, a) {
            (Some(r), Some(g), Some(b), Some(a)) => Ok(Rgba8 { r, g, b, a }),
            _ => Err(ColorError::InvalidDigit),
        }
    } else {
        Err(ColorError::InvalidFormat)
    }
}

/// A color written with one digit per channel is the one written with each
/// digit doubled: `#abc` is `#aabbcc`.
pub proof fn lemma_short_form_doubles(a: char, b: char, c: char)
    requires
        is_hex(a),
        is_hex(b),
        is_hex(c),
    ensures
        parsed_color(seq!['#', a, b, c]) == parsed_color(seq!['#', a, a, b, b, c, c]),
        parsed_color(seq!['#', a, b, c]) is Ok,
{
    let short = seq!['#', a, b, c];
    let long = seq!['#', a, a, b, b, c, c];
    assert(clean_ends(short));
    assert(clean_ends(long));
    lemma_trim_of_clean(short);
    lemma_trim_of_clean(long);
    assert(short.drop_first() =~= seq![a, b, c]);
    assert(long.drop_first() =~= seq![a, a, b, b, c, c]);
    assert(all_ascii(seq![a, b, c]));
    assert(all_ascii(seq![a, a, b, b, c, c]));
}

/// Where a theme color comes from when a theme is applied.
#[derive(Clone, Copy, Debug, PartialEq, Eq, Structural)]
pub enum ColorChoice {
    /// The color written in the theme.
    Written(Rgba8),
    /// The default theme's color.
    Default,
    /// The color worked out from others, for a color that has such a rule.
    Fallback,
    /// The color the theme had before.
    Keep,
}

/// How a theme color is chosen from what the theme writes (`value`):
/// a color that parses is taken. A color with a rule of its own
/// (`has_fallback`) follows the rule when nothing is written and keeps its
/// value when what is written does not parse; any other color takes the
/// default theme's in both cases.
pub fn resolve_color(value: Option<&str>, has_fallback: bool) -> (r: ColorChoice)
    ensures
        r == match value {
            Some(v) => match parsed_color(v@) {
                Ok(c) => ColorChoice::Written(c),
                Err(_) => if has_fallback { ColorChoice::Keep } else { ColorChoice::Default },
            },
            None => if has_fallback { ColorChoice::Fallback } else { ColorChoice::Default },
        },
{
    match value {
        Some(v) => match try_parse_color(v) {
            Ok(c) => ColorChoice::Written(c),
            Err(_) => if has_fallback { ColorChoice::Keep } else { ColorChoice::Default },
        },
        None => if has_fallback { ColorChoice::Fallback } else { ColorChoice::Default },
    }
}

} // verus!
