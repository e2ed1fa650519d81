//! Choosing the GPU: a device is pinned with its PCI id, written as four
//! hex digits (`ZED_DEVICE_ID=0x1234`).

use crate::color::{hex_value, is_hex};
use crate::text::{
    ascii_lower, chars_of, has_prefix, is_ws, lower_char, starts_with, trim, trim_chars, trim_end, trim_start,
};
use vstd::prelude::*;

verus! {

/// Why a PCI id did not parse.
#[derive(Clone, Copy, Debug, PartialEq, Eq, Structural)]
pub enum PciIdError {
    /// Not a 4 digit PCI id in hexadecimal.
    NotFourHexDigits,
}

/// The digits of a PCI id: trimmed, without a `0x` or `0X` prefix.
pub open spec fn pci_digits(s: Seq<char>) -> Seq<char> {
    let t = trim(s);
    if has_prefix(t, "0x"@) || has_prefix(t, "0X"@) {
        t.skip(2)
    } else {
        t
    }
}

/// The PCI id `s` denotes: exactly four hex digits, read base 16.
pub open spec fn parsed_pci_id(s: Seq<char>) -> Result<u32, PciIdError> {
    let h = pci_digits(s);
    if h.len() == 4 && (forall|i: int| 0 <= i < 4 ==> is_hex(#[trigger] h[i])) {
        Ok((4096 * hex_value(h[0]) + 256 * hex_value(h[1]) + 16 * hex_value(h[2]) + hex_value(h[3])) as u32)
    } else {
        Err(PciIdError::NotFourHexDigits)
    }
}

/// The value of a hex digit.
fn digit_value(c: char) -> (r: u32)
    requires
        is_hex(c),
    ensures
        r == hex_value(c),
        r < 16,
{
    if '0' <= c && c <= '9' {
        (c as u32) - ('0' as u32)
    } else if 'a' <= c && c <= 'f' {
        (c as u32) - ('a' as u32) + 10
    } else {
        (c as u32) - ('A' as u32) + 10
    }
}

/// Whether `c` is an ASCII hex digit.
fn hex_char(c: char) -> (r: bool)
    ensures
        r == is_hex(c),
{
    ('0' <= c && c <= '9') || ('a' <= c && c <= 'f') || ('A' <= c && c <= 'F')
}

/// Parses a PCI device id.
pub fn parse_pci_id(id: &str) -> (r: Result<u32, PciIdError>)
    ensures
        r == parsed_pci_id(id@),
{
    let t = trim_chars(chars_of(id).as_slice());
    proof {
        reveal_strlit("0x");
        reveal_strlit("0X");
    }
    let prefixed = starts_with(&t, chars_of("0x").as_slice()) || starts_with(&t, chars_of("0X").as_slice());
    let h: Vec<char> = if prefixed {
        crate::text::slice_chars(&t, 2, t.len())
    } else {
        t
    };
    assert(h@ == pci_digits(id@)) by {
        if prefixed {
            assert(t@.subrange(2, t@.len() as int) =~= t@.skip(2));
        }
    }
    if h.len() != 4 || !hex_char(h[0]) || !hex_char(h[1]) || !hex_char(h[2]) || !hex_char(h[3]) {
        proof {
            if h@.len() == 4 && (forall|i: int| 0 <= i < 4 ==> is_hex(#[trigger] h@[i])) {
                assert(is_hex(h@[0]) && is_hex(h@[1]) && is_hex(h@[2]) && is_hex(h@[3]));
            }
        }
        return Err(PciIdError::NotFourHexDigits);
    }
    assert(forall|i: int| 0 <= i < 4 ==> is_hex(#[trigger] h@[i])) by {
        assert forall|i: int| 0 <= i < 4 implies is_hex(#[trigger] h@[i]) by {
            if i == 0 {} else if i == 1 {} else if i == 2 {} else {}
        }
    }
    let v = 4096 * digit_value(h[0]) + 256 * digit_value(h[1]) + 16 * digit_value(h[2]) + digit_value(h[3]);
    Ok(v)
}

proof fn lemma_lower_char(c: char)
    ensures
        is_ws(lower_char(c)) == is_ws(c),
        is_hex(lower_char(c)) == is_hex(c),
        is_hex(c) ==> hex_value(lower_char(c)) == hex_value(c),
        !('A' <= lower_char(c) && lower_char(c) <= 'Z'),
        c == '0' <==> lower_char(c) == '0',
        (c == 'x' || c == 'X') <==> lower_char(c) == 'x',
{
    if 'A' <= c && c <= 'Z' {
        let n = (c as u32) + 32;
        assert(('a' as u32) <= n <= ('z' as u32));
    }
}

proof fn lemma_lower_first_last(x: Seq<char>)
    ensures
        ascii_lower(x).len() == x.len(),
        x.len() > 0 ==> ascii_lower(x)[0] == lower_char(x[0]),
        x.len() > 0 ==> ascii_lower(x).last() == lower_char(x.last()),
        x.len() > 0 ==> ascii_lower(x).drop_first() == ascii_lower(x.drop_first()),
        x.len() > 0 ==> ascii_lower(x).drop_last() == ascii_lower(x.drop_last()),
{
    if x.len() > 0 {
        assert(ascii_lower(x).drop_first() =~= ascii_lower(x.drop_first()));
        assert(ascii_lower(x).drop_last() =~= ascii_lower(x.drop_last()));
    }
}

proof fn lemma_trim_start_lower(x: Seq<char>)
    ensures
        trim_start(ascii_lower(x)) == ascii_lower(trim_start(x)),
    decreases x.len(),
{
    lemma_lower_first_last(x);
    if x.len() > 0 {
        lemma_lower_char(x[0]);
        if is_ws(x[0]) {
            lemma_trim_start_lower(x.drop_first());
        }
    }
}

proof fn lemma_trim_end_lower(x: Seq<char>)
    ensures
        trim_end(ascii_lower(x)) == ascii_lower(trim_end(x)),
    decreases x.len(),
{
    lemma_lower_first_last(x);
    if x.len() > 0 {
        lemma_lower_char(x.last());
        if is_ws(x.last()) {
            lemma_trim_end_lower(x.drop_last());
        }
    }
}

/// Case does not matter in a PCI id: `0X10DE` and `0x10de` name the same
/// device.
pub proof fn lemma_pci_id_ignores_case(s: Seq<char>)
    ensures
        parsed_pci_id(ascii_lower(s)) == parsed_pci_id(s),
{
    lemma_trim_start_lower(s);
    lemma_trim_end_lower(trim_start(s));
    let t = trim(s);
    let lt = ascii_lower(t);
    assert(trim(ascii_lower(s)) == lt);
    lemma_lower_first_last(t);
    reveal_strlit("0x");
    reveal_strlit("0X");
    let prefixed = has_prefix(t, "0x"@) || has_prefix(t, "0X"@);
    if t.len() >= 2 {
        lemma_lower_char(t[0]);
        lemma_lower_char(t[1]);
        assert(lt[0] == lower_char(t[0]) && lt[1] == lower_char(t[1]));
        assert(has_prefix(lt, "0x"@) == (lt[0] == '0' && lt[1] == 'x')) by {
            if lt[0] == '0' && lt[1] == 'x' {
                assert(lt.take(2) =~= "0x"@);
            }
            if has_prefix(lt, "0x"@) {
                assert(lt.take(2)[0] == lt[0] && lt.take(2)[1] == lt[1]);
                assert("0x"@[0] == '0' && "0x"@[1] == 'x');
            }
        }
        assert(has_prefix(t, "0x"@) == (t[0] == '0' && t[1] == 'x')) by {
            if t[0] == '0' && t[1] == 'x' {
                assert(t.take(2) =~= "0x"@);
            }
            if has_prefix(t, "0x"@) {
                assert(t.take(2)[0] == t[0] && t.take(2)[1] == t[1]);
                assert("0x"@[0] == '0' && "0x"@[1] == 'x');
            }
        }
        assert(has_prefix(t, "0X"@) == (t[0] == '0' && t[1] == 'X')) by {
            if t[0] == '0' && t[1] == 'X' {
                assert(t.take(2) =~= "0X"@);
            }
        }
        assert(!has_prefix(lt, "0X"@)) by {
            if has_prefix(lt, "0X"@) {
                assert(lt.take(2)[1] == 'X');
            }
        }
    }
    let h = pci_digits(s);
    let lh = pci_digits(ascii_lower(s));
    assert(lh == ascii_lower(h)) by {
        if prefixed {
            assert(lt.skip(2) =~= ascii_lower(t.skip(2)));
        }
    }
    if h.len() == 4 {
        lemma_lower_char(h[0]);
        lemma_lower_char(h[1]);
        lemma_lower_char(h[2]);
        lemma_lower_char(h[3]);
        assert(lh[0] == lower_char(h[0]) && lh[1] == lower_char(h[1]) && lh[2] == lower_char(h[2])
            && lh[3] == lower_char(h[3]));
        if forall|i: int| 0 <= i < 4 ==> is_hex(#[trigger] h[i]) {
            assert(is_hex(h[0]) && is_hex(h[1]) && is_hex(h[2]) && is_hex(h[3]));
        } else {
            let i = choose|i: int| 0 <= i < 4 && !is_hex(#[trigger] h[i]);
            lemma_lower_char(h[i]);
            assert(!is_hex(lh[i]));
        }
    }
}

} // verus!
