//! The crash log written when the editor panics.

use crate::text::{chars_of, decimal, push_decimal, string_of};
use vstd::prelude::*;

verus! {

/// The time stamp of a crash log entry: `unix:` and the seconds since the
/// Unix epoch.
pub fn chrono_like_timestamp(secs: u64) -> (r: String)
    ensures
        r@ == "unix:"@ + decimal(secs as nat),
{
    let mut cs = chars_of("unix:");
    push_decimal(&mut cs, secs);
    string_of(&cs)
}

} // verus!
