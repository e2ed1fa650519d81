//! Source control from the workspace: which changed files an operation
//! touches, the checks before a commit, and the status lines.

use crate::text::{chars_of, push_all, string_of, trim, trim_chars};
use vstd::prelude::*;

verus! {

/// A changed file, as the source-control view reads it.
#[derive(Clone, Debug)]
pub struct ChangedFile {
    /// The path below the repository.
    pub rel: String,
    /// Whether the change is staged.
    pub staged: bool,
    /// Whether git does not track the file.
    pub untracked: bool,
    /// Whether the working tree changed it.
    pub worktree_changed: bool,
}

/// The files that unstaging everything touches: the staged ones, in order.
pub open spec fn unstage_all_of(cs: Seq<ChangedFile>) -> Seq<Seq<char>>
    decreases cs.len(),
{
    if cs.len() == 0 {
        Seq::empty()
    } else {
        let rest = unstage_all_of(cs.drop_last());
        if cs.last().staged {
            rest.push(cs.last().rel@)
        } else {
            rest
        }
    }
}

/// Whether discarding everything touches a change: one not staged, one
/// with working-tree changes, or a file git does not follow.
pub open spec fn discarded(c: ChangedFile) -> bool {
    !c.staged || c.worktree_changed || c.untracked
}

/// The files that discarding everything touches: those git follows first,
/// the others second, each in order.
pub open spec fn discard_all_of(cs: Seq<ChangedFile>) -> (Seq<Seq<char>>, Seq<Seq<char>>)
    decreases cs.len(),
{
    if cs.len() == 0 {
        (Seq::empty(), Seq::empty())
    } else {
        let (t, u) = discard_all_of(cs.drop_last());
        let c = cs.last();
        if !discarded(c) {
            (t, u)
        } else if c.untracked {
            (t, u.push(c.rel@))
        } else {
            (t.push(c.rel@), u)
        }
    }
}

/// The files to unstage when everything is unstaged.
pub fn unstage_all_targets(cs: &[ChangedFile]) -> (r: Vec<String>)
    ensures
        r@.map_values(|s: String| s@) == unstage_all_of(cs@),
{
    let mut out: Vec<String> = Vec::new();
    let mut i: usize = 0;
    assert(cs@.take(0) =~= Seq::<ChangedFile>::empty());
    while i < cs.len()
        invariant
            0 <= i <= cs@.len(),
            out@.map_values(|s: String| s@) == unstage_all_of(cs@.take(i as int)),
        decreases cs@.len() - i,
    {
        assert(cs@.take(i + 1).drop_last() =~= cs@.take(i as int));
        assert(cs@.take(i + 1).last() == cs@[i as int]);
        if cs[i].staged {
            let ghost before = out@.map_values(|s: String| s@);
            out.push(cs[i].rel.clone());
            assert(out@.map_values(|s: String| s@) =~= before.push(cs@[i as int].rel@));
        }
        i = i + 1;
    }
    assert(cs@.take(i as int) =~= cs@);
    out
}

/// The files git follows and those it does not, to discard when everything is
/// discarded.
pub fn discard_all_targets(cs: &[ChangedFile]) -> (r: (Vec<String>, Vec<String>))
    ensures
        (r.0@.map_values(|s: String| s@), r.1@.map_values(|s: String| s@)) == discard_all_of(cs@),
{
    let mut kept_files: Vec<String> = Vec::new();
    let mut new_files: Vec<String> = Vec::new();
    let mut i: usize = 0;
    assert(cs@.take(0) =~= Seq::<ChangedFile>::empty());
    while i < cs.len()
        invariant
            0 <= i <= cs@.len(),
            (kept_files@.map_values(|s: String| s@), new_files@.map_values(|s: String| s@)) == discard_all_of(
                cs@.take(i as int),
            ),
        decreases cs@.len() - i,
    {
        assert(cs@.take(i + 1).drop_last() =~= cs@.take(i as int));
        assert(cs@.take(i + 1).last() == cs@[i as int]);
        let c = &cs[i];
        if !c.staged || c.worktree_changed || c.untracked {
            if c.untracked {
                let ghost before = new_files@.map_values(|s: String| s@);
                new_files.push(c.rel.clone());
                assert(new_files@.map_values(|s: String| s@) =~= before.push(c.rel@));
            } else {
                let ghost before = kept_files@.map_values(|s: String| s@);
                kept_files.push(c.rel.clone());
                assert(kept_files@.map_values(|s: String| s@) =~= before.push(c.rel@));
            }
        }
        i = i + 1;
    }
    assert(cs@.take(i as int) =~= cs@);
    (kept_files, new_files)
}

/// What a commit comes to before it runs: the message to commit (without
/// surrounding whitespace), or the status line that says why there is
/// nothing to commit.
pub open spec fn commit_check_of(is_repo: bool, staged: nat, changed: nat, message: Seq<char>) -> Result<
    Seq<char>,
    Seq<char>,
> {
    if !is_repo {
        Err("Not a git repository — open a folder to commit"@)
    } else if staged == 0 {
        if changed > 0 {
            Err("Nothing staged — use + on a file or 'stage all' first"@)
        } else {
            Err("Nothing to commit"@)
        }
    } else if trim(message).len() == 0 {
        Err("Commit message is empty"@)
    } else {
        Ok(trim(message))
    }
}

/// The checks before a commit: a repository, staged changes (`staged` of
/// `changed`), a message that is not blank.
pub fn commit_check(is_repo: bool, staged: usize, changed: usize, message: &str) -> (r: Result<String, String>)
    ensures
        match r {
            Ok(m) => commit_check_of(is_repo, staged as nat, changed as nat, message@) == Ok::<Seq<char>, Seq<char>>(m@),
            Err(e) => commit_check_of(is_repo, staged as nat, changed as nat, message@) == Err::<Seq<char>, Seq<char>>(e@),
        },
{
    if !is_repo {
        return Err("Not a git repository — open a folder to commit".to_string());
    }
    if staged == 0 {
        if changed > 0 {
            return Err("Nothing staged — use + on a file or 'stage all' first".to_string());
        }
        return Err("Nothing to commit".to_string());
    }
    let t = trim_chars(chars_of(message).as_slice());
    if t.len() == 0 {
        return Err("Commit message is empty".to_string());
    }
    Ok(string_of(t.as_slice()))
}

/// `s` with every `{}` replaced by `with`, from left to right.
pub open spec fn fill_braces(s: Seq<char>, with: Seq<char>) -> Seq<char>
    decreases s.len(),
{
    if s.len() == 0 {
        s
    } else if s.len() >= 2 && s[0] == '{' && s[1] == '}' {
        with + fill_braces(s.skip(2), with)
    } else {
        seq![s[0]] + fill_braces(s.drop_first(), with)
    }
}

/// The status line after a source-control operation: on success the
/// message, with the first file's path in place of `{}`; otherwise a
/// failure.
pub fn git_op_status(ok: bool, success: &str, rel_name: &str) -> (r: String)
    ensures
        ok ==> r@ == fill_braces(success@, rel_name@),
        !ok ==> r@ == "Git operation failed"@,
{
    if !ok {
        return "Git operation failed".to_string();
    }
    let s = chars_of(success);
    let w = chars_of(rel_name);
    let mut out: Vec<char> = Vec::new();
    let mut i: usize = 0;
    assert(s@.skip(0) =~= s@);
    assert(out@ + fill_braces(s@.skip(0), w@) =~= fill_braces(s@, w@));
    while i < s.len()
        invariant
            0 <= i <= s@.len(),
            s@ == success@,
            w@ == rel_name@,
            out@ + fill_braces(s@.skip(i as int), w@) == fill_braces(s@, w@),
        decreases s@.len() - i,
    {
        let ghost rest = s@.skip(i as int);
        if i + 1 < s.len() && s[i] == '{' && s[i + 1] == '}' {
            assert(rest.skip(2) =~= s@.skip(i + 2));
            push_all(&mut out, w.as_slice());
            assert(out@ + fill_braces(s@.skip(i + 2), w@) =~= fill_braces(s@, w@));
            i = i + 2;
        } else {
            assert(rest.drop_first() =~= s@.skip(i + 1));
            let ghost before = out@;
            out.push(s[i]);
            assert(out@ + fill_braces(s@.skip(i + 1), w@) =~= before + (seq![rest[0]] + fill_braces(rest.drop_first(), w@)));
            i = i + 1;
        }
    }
    assert(s@.skip(i as int) =~= Seq::<char>::empty());
    string_of(out.as_slice())
}

/// The hint of the commit message box: committing goes on `branch`, or on
/// `main` when the branch is not known.
pub fn commit_placeholder(branch: Option<&str>) -> (r: String)
    ensures
        r@ == "Message (Ctrl+Enter to commit on \""@ + match branch {
            Some(b) => b@,
            None => "main"@,
        } + "\"...)"@,
{
    let mut cs = chars_of("Message (Ctrl+Enter to commit on \"");
    match branch {
        Some(b) => push_all(&mut cs, chars_of(b).as_slice()),
        None => push_all(&mut cs, chars_of("main").as_slice()),
    }
    push_all(&mut cs, chars_of("\"...)").as_slice());
    string_of(cs.as_slice())
}

} // verus!
