//! Going to a line: reading `line:column` from the picker, the cursor it
//! puts the editor at, and the status line after the jump.

use crate::text::{chars_of, decimal, find_char, find_char_from, lemma_find_char_result, push_all, push_decimal, slice_chars, string_of, trim, trim_chars};
use vstd::prelude::*;

verus! {

/// Whether `c` is an ASCII digit.
pub open spec fn is_digit(c: char) -> bool {
    '0' <= c && c <= '9'
}

/// Every character of `s` is an ASCII digit.
pub open spec fn all_digits(s: Seq<char>) -> bool {
    forall|i: int| 0 <= i < s.len() ==> is_digit(#[trigger] s[i])
}

/// The number the decimal digits `s` write.
pub open spec fn digits_value(s: Seq<char>) -> nat
    decreases s.len(),
{
    if s.len() == 0 {
        0
    } else {
        10 * digits_value(s.drop_last()) + ((s.last() as int) - ('0' as int)) as nat
    }
}

/// `str::parse::<u32>`: an optional `+`, then one or more decimal digits
/// whose value fits in a `u32`.
pub open spec fn parsed_u32(s: Seq<char>) -> Option<u32> {
    let d = if s.len() > 0 && s[0] == '+' { s.drop_first() } else { s };
    if d.len() > 0 && all_digits(d) && digits_value(d) <= u32::MAX {
        Some(digits_value(d) as u32)
    } else {
        None
    }
}

/// The text before the first `:` (all of it when there is none).
pub open spec fn first_field(s: Seq<char>) -> Seq<char> {
    let k = find_char_from(s, ':', 0);
    if k < 0 {
        s
    } else {
        s.take(k)
    }
}

/// The text after the first `:`, when there is one.
pub open spec fn after_colon(s: Seq<char>) -> Option<Seq<char>> {
    let k = find_char_from(s, ':', 0);
    if k < 0 {
        None
    } else {
        Some(s.skip(k + 1))
    }
}

/// A line and a column, both counted from one.
#[derive(Clone, Copy, Debug, PartialEq, Eq, Structural)]
pub struct GotoTarget {
    pub line: u32,
    pub character: u32,
}

/// What `line:column` text asks for: the line is the first field, the
/// column the second (one when it is missing or not a number); nothing
/// when the text is blank or the line is not a number.
pub open spec fn goto_target_of(val: Seq<char>) -> Option<GotoTarget> {
    let t = trim(val);
    if t.len() == 0 {
        None
    } else {
        match parsed_u32(trim(first_field(t))) {
            None => None,
            Some(line) => Some(
                GotoTarget {
                    line,
                    character: match after_colon(t) {
                        Some(rest) => match parsed_u32(trim(first_field(rest))) {
                            Some(c) => c,
                            None => 1,
                        },
                        None => 1,
                    },
                },
            ),
        }
    }
}

proof fn lemma_digits_prefix(s: Seq<char>, k: int)
    requires
        all_digits(s),
        0 <= k <= s.len(),
    ensures
        digits_value(s.take(k)) <= digits_value(s),
    decreases s.len() - k,
{
    if k < s.len() {
        lemma_digits_prefix(s, k + 1);
        assert(s.take(k + 1).drop_last() =~= s.take(k));
        assert(is_digit(s[k]));
    } else {
        assert(s.take(k) =~= s);
    }
}

/// Reads a `u32` written in decimal, as `str::parse` does.
pub fn parse_u32(v: &[char]) -> (r: Option<u32>)
    ensures
        r == parsed_u32(v@),
{
    let start: usize = if v.len() > 0 && v[0] == '+' { 1 } else { 0 };
    let ghost d = if v@.len() > 0 && v@[0] == '+' { v@.drop_first() } else { v@ };
    assert(d =~= v@.skip(start as int));
    assert(parsed_u32(v@) == if d.len() > 0 && all_digits(d) && digits_value(d) <= u32::MAX {
        Some(digits_value(d) as u32)
    } else {
        None
    });
    if start >= v.len() {
        return None;
    }
    let mut acc: u64 = 0;
    let mut i: usize = start;
    while i < v.len()
        invariant
            start <= i <= v@.len(),
            d == v@.skip(start as int),
            parsed_u32(v@) == if d.len() > 0 && all_digits(d) && digits_value(d) <= u32::MAX {
                Some(digits_value(d) as u32)
            } else {
                None
            },
            all_digits(d.take(i - start)),
            acc == digits_value(d.take(i - start)),
            acc <= u32::MAX,
        decreases v@.len() - i,
    {
        let c = v[i];
        let ghost k: int = i - start;
        assert(d[k] == c);
        if !('0' <= c && c <= '9') {
            assert(0 <= k < d.len());
            assert(!is_digit(d[k]));
            assert(!all_digits(d));
            return None;
        }
        assert(d.take(k + 1).drop_last() =~= d.take(k));
        assert(d.take(k + 1).last() == c);
        let dv = (c as u64) - ('0' as u64);
        let next = acc * 10 + dv;
        assert(all_digits(d.take(k + 1))) by {
            assert forall|j: int| 0 <= j < k + 1 implies is_digit(#[trigger] d.take(k + 1)[j]) by {
                if j < k {
                    assert(d.take(k + 1)[j] == d.take(k)[j]);
                }
            }
        }
        if next > 0xffff_ffff {
            assert(next == digits_value(d.take(k + 1)));
            proof {
                if all_digits(d) {
                    lemma_digits_prefix(d, k + 1);
                }
            }
            assert(!(all_digits(d) && digits_value(d) <= u32::MAX));
            return None;
        }
        acc = next;
        i = i + 1;
    }
    assert(d.take(i - start) =~= d);
    Some(acc as u32)
}

/// Reads `line:column` text, as the go-to-line picker takes it.
pub fn goto_target(val: &str) -> (r: Option<GotoTarget>)
    ensures
        r == goto_target_of(val@),
{
    let t = trim_chars(chars_of(val).as_slice());
    if t.len() == 0 {
        return None;
    }
    let k = find_char(t.as_slice(), ':', 0);
    proof {
        lemma_find_char_result(t@, ':', 0);
    }
    let first = match k {
        Some(k) => slice_chars(t.as_slice(), 0, k),
        None => slice_chars(t.as_slice(), 0, t.len()),
    };
    assert(first@ == first_field(t@)) by {
        if k is None {
            assert(t@.subrange(0, t@.len() as int) =~= t@);
        } else {
            assert(t@.subrange(0, k->0 as int) =~= t@.take(k->0 as int));
        }
    }
    let line = match parse_u32(trim_chars(first.as_slice()).as_slice()) {
        Some(l) => l,
        None => return None,
    };
    let character = match k {
        Some(k) => {
            let rest = slice_chars(t.as_slice(), k + 1, t.len());
            assert(rest@ =~= t@.skip(k + 1));
            let j = find_char(rest.as_slice(), ':', 0);
            proof {
                lemma_find_char_result(rest@, ':', 0);
            }
            let second = match j {
                Some(j) => slice_chars(rest.as_slice(), 0, j),
                None => slice_chars(rest.as_slice(), 0, rest.len()),
            };
            assert(second@ == first_field(rest@)) by {
                if j is None {
                    assert(rest@.subrange(0, rest@.len() as int) =~= rest@);
                } else {
                    assert(rest@.subrange(0, j->0 as int) =~= rest@.take(j->0 as int));
                }
            }
            match parse_u32(trim_chars(second.as_slice()).as_slice()) {
                Some(c) => c,
                None => 1,
            }
        },
        None => 1,
    };
    Some(GotoTarget { line, character })
}

/// The text after the first `:` of a file finder query, which names a line
/// to go to in the file opened.
pub fn query_line_part(query: &str) -> (r: Option<String>)
    ensures
        match r {
            Some(s) => after_colon(query@) == Some(s@),
            None => after_colon(query@) is None,
        },
{
    let q = chars_of(query);
    match find_char(q.as_slice(), ':', 0) {
        Some(k) => {
            proof {
                lemma_find_char_result(q@, ':', 0);
            }
            assert(k < q.len());
            let rest = slice_chars(q.as_slice(), k + 1, q.len());
            assert(rest@ =~= q@.skip(k + 1));
            Some(string_of(rest.as_slice()))
        },
        None => None,
    }
}

impl GotoTarget {
    /// The editor position, counted from zero: one less than the line and
    /// the column, but not below zero.
    pub fn cursor(&self) -> (r: (u32, u32))
        ensures
            r.0 == if self.line > 0 { self.line - 1 } else { 0 },
            r.1 == if self.character > 0 { self.character - 1 } else { 0 },
    {
        (
            if self.line > 0 { self.line - 1 } else { 0 },
            if self.character > 0 { self.character - 1 } else { 0 },
        )
    }

    /// The status line after the jump.
    pub fn status(&self) -> (r: String)
        ensures
            r@ == "Jumped to line "@ + decimal(self.line as nat) + ":"@ + decimal(self.character as nat),
    {
        let mut cs = chars_of("Jumped to line ");
        push_decimal(&mut cs, self.line as u64);
        push_all(&mut cs, chars_of(":").as_slice());
        push_decimal(&mut cs, self.character as u64);
        string_of(cs.as_slice())
    }
}

/// The editor line for a jump to the line `line`, counted from one: the
/// line taken as a `u32`, less one, but not below zero.
pub fn line_cursor(line: usize) -> (r: u32)
    ensures
        r == if (line as u32) > 0 { (line as u32) - 1 } else { 0 },
{
    let l = line as u32;
    if l > 0 { l - 1 } else { 0 }
}

/// The status line after a jump to the line `line`.
pub fn jumped_status(line: usize) -> (r: String)
    ensures
        r@ == "Jumped to line "@ + decimal(line as nat),
{
    let mut cs = chars_of("Jumped to line ");
    push_decimal(&mut cs, line as u64);
    string_of(cs.as_slice())
}

/// The hint of the go-to-line picker for a file of `total_lines` lines.
pub fn goto_placeholder(total_lines: usize) -> (r: String)
    ensures
        r@ == "Go to line:column (1 - "@ + decimal(total_lines as nat) + ")..."@,
{
    let mut cs = chars_of("Go to line:column (1 - ");
    push_decimal(&mut cs, total_lines as u64);
    push_all(&mut cs, chars_of(")...").as_slice());
    string_of(cs.as_slice())
}

} // verus!
