//! Whether a file read from disk opens in an editor, and whether it is
//! small enough to highlight.

use crate::paths::{display_name, display_of, shown_name};
use crate::text::{chars_of, push_all, string_of};
use vstd::prelude::*;

verus! {

/// The largest file that opens, in bytes.
pub open spec fn max_open_bytes() -> int {
    8_000_000
}

/// How many leading bytes are looked at for a zero byte.
pub open spec fn binary_probe() -> int {
    8000
}

/// How many `\n` bytes are in `b`.
pub open spec fn newlines(b: Seq<u8>) -> nat
    decreases b.len(),
{
    if b.len() == 0 {
        0
    } else {
        newlines(b.drop_last()) + if b.last() == 10u8 { 1nat } else { 0nat }
    }
}

/// Whether a file of these bytes is highlighted: at most 400 000 bytes and
/// at most 8 000 line breaks.
pub open spec fn highlighted(b: Seq<u8>) -> bool {
    b.len() <= 400_000 && newlines(b) <= 8_000
}

/// Whether one of the first bytes (up to the probe) is zero.
pub open spec fn looks_binary(b: Seq<u8>) -> bool {
    exists|i: int| 0 <= i < b.len() && i < binary_probe() && b[i] == 0u8
}

/// Whether a file read from `path` opens: not over 8 MB, no zero byte in
/// its first 8 000 bytes. Gives whether it is highlighted, or the status
/// line that says why it does not open.
pub fn classify_buffer(path: &str, bytes: &[u8]) -> (r: Result<bool, String>)
    ensures
        bytes@.len() > max_open_bytes() ==> (r matches Err(m) && m@ == shown_name(path@) + " is too large (>8MB)"@),
        bytes@.len() <= max_open_bytes() && looks_binary(bytes@) ==> (r matches Err(m) && m@ == shown_name(path@)
            + " looks binary"@),
        bytes@.len() <= max_open_bytes() && !looks_binary(bytes@) ==> r == Ok::<bool, String>(highlighted(bytes@)),
{
    let name = display_name(path);
    if bytes.len() > 8_000_000 {
        let mut cs = chars_of(name.as_str());
        push_all(&mut cs, chars_of(" is too large (>8MB)").as_slice());
        return Err(string_of(cs.as_slice()));
    }
    let probe = if bytes.len() < 8000 { bytes.len() } else { 8000 };
    let mut i: usize = 0;
    while i < probe
        invariant
            name@ == shown_name(path@),
            bytes@.len() <= max_open_bytes(),
            probe <= bytes@.len(),
            probe == if bytes@.len() < 8000 { bytes@.len() as int } else { 8000 },
            0 <= i <= probe,
            forall|k: int| 0 <= k < i ==> bytes@[k] != 0u8,
        decreases probe - i,
    {
        if bytes[i] == 0 {
            let mut cs = chars_of(name.as_str());
            push_all(&mut cs, chars_of(" looks binary").as_slice());
            return Err(string_of(cs.as_slice()));
        }
        i = i + 1;
    }
    let mut count: usize = 0;
    let mut j: usize = 0;
    assert(bytes@.take(0) =~= Seq::<u8>::empty());
    while j < bytes.len()
        invariant
            0 <= j <= bytes@.len(),
            count == newlines(bytes@.take(j as int)),
            count <= j,
        decreases bytes@.len() - j,
    {
        assert(bytes@.take(j + 1).drop_last() =~= bytes@.take(j as int));
        if bytes[j] == 10u8 {
            count = count + 1;
        }
        j = j + 1;
    }
    assert(bytes@.take(j as int) =~= bytes@);
    Ok(bytes.len() <= 400_000 && count <= 8_000)
}

/// The status line after a file opened: its path, or its name with a note
/// when it is too large to highlight.
pub fn opened_status(path: &str, highlight: bool) -> (r: String)
    ensures
        highlight ==> r@ == path@,
        !highlight ==> r@ == shown_name(path@) + " (plain text — large file)"@,
{
    if highlight {
        return display_of(path);
    }
    let name = display_name(path);
    let mut cs = chars_of(name.as_str());
    push_all(&mut cs, chars_of(" (plain text — large file)").as_slice());
    string_of(cs.as_slice())
}

/// The status line while a file opens.
pub fn opening_status(path: &str) -> (r: String)
    ensures
        r@ == "Opening "@ + shown_name(path@) + "…"@,
{
    let mut cs = chars_of("Opening ");
    let name = display_name(path);
    push_all(&mut cs, chars_of(name.as_str()).as_slice());
    push_all(&mut cs, chars_of("…").as_slice());
    string_of(cs.as_slice())
}

/// The status line while a file is written.
pub fn saving_status(path: &str) -> (r: String)
    ensures
        r@ == "Saving "@ + shown_name(path@) + "…"@,
{
    let mut cs = chars_of("Saving ");
    let name = display_name(path);
    push_all(&mut cs, chars_of(name.as_str()).as_slice());
    push_all(&mut cs, chars_of("…").as_slice());
    string_of(cs.as_slice())
}

/// The status line after a file was written: `done` (`Saved`, or
/// `Auto-saved`) and the file's name.
pub fn saved_status(done: &str, path: &str) -> (r: String)
    ensures
        r@ == done@ + " "@ + shown_name(path@),
{
    let mut cs = chars_of(done);
    push_all(&mut cs, chars_of(" ").as_slice());
    let name = display_name(path);
    push_all(&mut cs, chars_of(name.as_str()).as_slice());
    string_of(cs.as_slice())
}

} // verus!
