//! What the workspace says of the language server's problems and of
//! formatting: the text copied for a file's problems and the status lines.

use crate::text::{chars_of, push_all, string_of};
use vstd::prelude::*;

verus! {

/// One problem reported for a file: what reported it, and the message.
#[derive(Clone, Debug)]
pub struct Problem {
    pub source: Option<String>,
    pub message: String,
}

/// A problem as one line: its source (`error` when none is given), a colon
/// and the message.
pub open spec fn problem_line(source: Option<Seq<char>>, message: Seq<char>) -> Seq<char> {
    let who = match source {
        Some(s) => s,
        None => "error"@,
    };
    who + ": "@ + message
}

/// The value of a problem's source.
pub open spec fn source_view(p: Problem) -> Option<Seq<char>> {
    match p.source {
        Some(s) => Some(s@),
        None => None,
    }
}

/// The lines of the problems, one after another, each after the first on
/// a new line.
pub open spec fn problems_text(ps: Seq<Problem>) -> Seq<char>
    decreases ps.len(),
{
    if ps.len() == 0 {
        Seq::empty()
    } else if ps.len() == 1 {
        problem_line(source_view(ps[0]), ps[0].message@)
    } else {
        problems_text(ps.drop_last()) + "\n"@ + problem_line(source_view(ps.last()), ps.last().message@)
    }
}

fn push_problem(out: &mut Vec<char>, p: &Problem)
    ensures
        final(out)@ == old(out)@ + problem_line(source_view(*p), p.message@),
{
    match &p.source {
        Some(s) => push_all(out, chars_of(s.as_str()).as_slice()),
        None => push_all(out, chars_of("error").as_slice()),
    }
    push_all(out, chars_of(": ").as_slice());
    push_all(out, chars_of(p.message.as_str()).as_slice());
}

/// The text copied for a file's problems.
pub fn problems_report(ps: &[Problem]) -> (r: String)
    ensures
        r@ == problems_text(ps@),
{
    let mut out: Vec<char> = Vec::new();
    let mut i: usize = 0;
    while i < ps.len()
        invariant
            0 <= i <= ps@.len(),
            out@ == problems_text(ps@.take(i as int)),
        decreases ps@.len() - i,
    {
        assert(ps@.take(i + 1).drop_last() =~= ps@.take(i as int));
        assert(ps@.take(i + 1).last() == ps@[i as int]);
        if i > 0 {
            push_all(&mut out, chars_of("\n").as_slice());
        } else {
            assert(ps@.take(0) =~= Seq::<Problem>::empty());
            assert(out@ =~= Seq::<char>::empty());
        }
        push_problem(&mut out, &ps[i]);
        proof {
            if i == 0 {
                assert(out@ =~= problem_line(source_view(ps@[0]), ps@[0].message@));
            }
        }
        i = i + 1;
    }
    assert(ps@.take(i as int) =~= ps@);
    string_of(out.as_slice())
}

/// The status line after a file's problems were copied: the first
/// message; `None` when there is nothing to copy.
pub fn copied_problems_status(ps: &[Problem]) -> (r: Option<String>)
    ensures
        ps@.len() == 0 ==> r is None,
        ps@.len() > 0 ==> (r matches Some(m) && m@ == "Copied: "@ + ps@[0].message@),
{
    if ps.len() == 0 {
        return None;
    }
    let mut cs = chars_of("Copied: ");
    push_all(&mut cs, chars_of(ps[0].message.as_str()).as_slice());
    Some(string_of(cs.as_slice()))
}

/// The status line for the first problem of the active file.
pub fn problem_status(message: &str) -> (r: String)
    ensures
        r@ == "Problem: "@ + message@ + " (Ctrl+Alt+C to copy)"@,
{
    let mut cs = chars_of("Problem: ");
    push_all(&mut cs, chars_of(message).as_slice());
    push_all(&mut cs, chars_of(" (Ctrl+Alt+C to copy)").as_slice());
    string_of(cs.as_slice())
}

/// The status line after formatting `name`: the server's edits (`None`
/// when it cannot format) were applied, or there were none.
pub fn formatted_status(edits: Option<usize>, name: &str) -> (r: String)
    ensures
        r@ == match edits {
            Some(n) => if n > 0 {
                "Formatted "@ + name@
            } else {
                "Document already formatted"@
            },
            None => "Formatting not supported by the language server"@,
        },
{
    match edits {
        Some(n) => if n > 0 {
            let mut cs = chars_of("Formatted ");
            push_all(&mut cs, chars_of(name).as_slice());
            string_of(cs.as_slice())
        } else {
            "Document already formatted".to_string()
        },
        None => "Formatting not supported by the language server".to_string(),
    }
}

} // verus!
