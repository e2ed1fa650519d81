//! The workspace's side bar: which activity it shows, and whether it shows.

use crate::paths::{parent_of, path_parent, paths_equal, same_path};
use crate::text::{strs, text_is};
use vstd::prelude::*;

verus! {

/// What the side bar shows.
#[derive(Clone, Copy, Debug, PartialEq, Eq, Structural)]
pub enum Activity {
    Explorer,
    Search,
    Git,
    Extensions,
}

impl Activity {
    /// The title of the side bar for the activity.
    pub fn status_label(self) -> (r: &'static str)
        ensures
            r@ == match self {
                Activity::Explorer => "EXPLORER"@,
                Activity::Search => "SEARCH"@,
                Activity::Git => "SOURCE CONTROL"@,
                Activity::Extensions => "EXTENSIONS"@,
            },
    {
        match self {
            Activity::Explorer => "EXPLORER",
            Activity::Search => "SEARCH",
            Activity::Git => "SOURCE CONTROL",
            Activity::Extensions => "EXTENSIONS",
        }
    }
}

/// The side bar: whether it shows, and the activity it shows.
#[derive(Clone, Copy, Debug, PartialEq, Eq, Structural)]
pub struct Sidebar {
    pub visible: bool,
    pub activity: Activity,
}

/// The side bar after the activity `a` is chosen in the activity bar: it
/// hides when it shows `a` already, and otherwise shows `a`.
pub open spec fn toggled(s: Sidebar, a: Activity) -> Sidebar {
    if s.visible && s.activity == a {
        Sidebar { visible: false, activity: a }
    } else {
        Sidebar { visible: true, activity: a }
    }
}

impl Sidebar {
    /// Choosing an activity in the activity bar. Gives the status line: the
    /// title of the activity it has.
    pub fn toggle_activity(&mut self, activity: Activity) -> (r: &'static str)
        ensures
            *final(self) == toggled(*old(self), activity),
            r@ == match activity {
                Activity::Explorer => "EXPLORER"@,
                Activity::Search => "SEARCH"@,
                Activity::Git => "SOURCE CONTROL"@,
                Activity::Extensions => "EXTENSIONS"@,
            },
    {
        if self.visible && self.activity == activity {
            self.visible = false;
        } else {
            self.visible = true;
            self.activity = activity;
        }
        self.activity.status_label()
    }

    /// Shows the side bar with the activity, whatever it showed before.
    pub fn show_activity(&mut self, activity: Activity) -> (r: &'static str)
        ensures
            *final(self) == (Sidebar { visible: true, activity }),
            r@ == match activity {
                Activity::Explorer => "EXPLORER"@,
                Activity::Search => "SEARCH"@,
                Activity::Git => "SOURCE CONTROL"@,
                Activity::Extensions => "EXTENSIONS"@,
            },
    {
        self.visible = true;
        self.activity = activity;
        activity.status_label()
    }
}

/// Choosing the activity the side bar shows hides it, and choosing it
/// again brings the side bar back as it was.
pub proof fn lemma_toggle_activity_twice(s: Sidebar, a: Activity)
    requires
        s.visible,
        s.activity == a,
    ensures
        !toggled(s, a).visible,
        toggled(toggled(s, a), a) == s,
{
}

/// After an activity is chosen, the side bar has that activity.
pub proof fn lemma_toggle_activity_sets(s: Sidebar, a: Activity)
    ensures
        toggled(s, a).activity == a,
        toggled(s, a).visible == !(s.visible && s.activity == a),
{
}

/// The folders that changed paths ask to reload, in order and with
/// repeats: each path's parent, then the path itself where it is a folder.
pub open spec fn reload_candidates(changed: Seq<(String, bool)>) -> Seq<Seq<char>>
    decreases changed.len(),
{
    if changed.len() == 0 {
        Seq::empty()
    } else {
        let rest = reload_candidates(changed.drop_last());
        let p = changed.last().0@;
        let with_parent = match path_parent(p) {
            Some(q) => rest.push(q),
            None => rest,
        };
        if changed.last().1 {
            with_parent.push(p)
        } else {
            with_parent
        }
    }
}

/// `s` with every path dropped that names the same path as one before it.
pub open spec fn first_of_each(s: Seq<Seq<char>>) -> Seq<Seq<char>>
    decreases s.len(),
{
    if s.len() == 0 {
        Seq::empty()
    } else {
        let d = first_of_each(s.drop_last());
        if exists|j: int| 0 <= j < d.len() && #[trigger] same_path(d[j], s.last()) {
            d
        } else {
            d.push(s.last())
        }
    }
}

/// Adds `p` to `out` unless `out` names that path already.
fn add_path_once(out: &mut Vec<String>, p: String)
    ensures
        strs(final(out)@) == if exists|j: int|
            0 <= j < old(out)@.len() && #[trigger] same_path(strs(old(out)@)[j], p@) {
            strs(old(out)@)
        } else {
            strs(old(out)@).push(p@)
        },
{
    let ghost v = strs(old(out)@);
    let mut j: usize = 0;
    while j < out.len()
        invariant
            0 <= j <= out@.len(),
            *out == *old(out),
            v == strs(out@),
            forall|k: int| 0 <= k < j ==> !same_path(#[trigger] v[k], p@),
        decreases out@.len() - j,
    {
        if paths_equal(out[j].as_str(), p.as_str()) {
            assert(same_path(v[j as int], p@));
            return;
        }
        j = j + 1;
    }
    out.push(p);
    assert(strs(out@) =~= v.push(p@));
}

/// The folders to read again after the paths in `changed` (each with
/// whether it is a folder now) changed on disk: every parent, since its
/// entries changed, and every changed folder, each path once, in the order
/// first met.
pub fn dirs_to_reload(changed: &[(String, bool)]) -> (r: Vec<String>)
    ensures
        strs(r@) == first_of_each(reload_candidates(changed@)),
{
    let mut candidates: Vec<String> = Vec::new();
    let mut i: usize = 0;
    while i < changed.len()
        invariant
            0 <= i <= changed@.len(),
            strs(candidates@) == reload_candidates(changed@.take(i as int)),
        decreases changed@.len() - i,
    {
        let ghost before = strs(candidates@);
        assert(changed@.take(i as int + 1).drop_last() =~= changed@.take(i as int));
        let p = &changed[i].0;
        match parent_of(p.as_str()) {
            Some(q) => {
                candidates.push(q);
            },
            None => {},
        }
        if changed[i].1 {
            candidates.push(p.clone());
        }
        proof {
            let c = changed@.take(i as int + 1);
            assert(c.last() == changed@[i as int]);
            let with_parent = match path_parent(c.last().0@) {
                Some(q) => before.push(q),
                None => before,
            };
            assert(strs(candidates@) =~= if c.last().1 {
                with_parent.push(c.last().0@)
            } else {
                with_parent
            });
        }
        i = i + 1;
    }
    assert(changed@.take(changed@.len() as int) =~= changed@);
    let ghost cands = strs(candidates@);
    let mut out: Vec<String> = Vec::new();
    let mut k: usize = 0;
    while k < candidates.len()
        invariant
            0 <= k <= candidates@.len(),
            cands == strs(candidates@),
            strs(out@) == first_of_each(cands.take(k as int)),
        decreases candidates@.len() - k,
    {
        assert(cands.take(k as int + 1).drop_last() =~= cands.take(k as int));
        assert(cands.take(k as int + 1).last() == cands[k as int]);
        let c = candidates[k].clone();
        assert(c@ == cands[k as int]);
        add_path_once(&mut out, c);
        k = k + 1;
    }
    assert(cands.take(cands.len() as int) =~= cands);
    out
}

/// Index of the first of `names` equal to `wanted`, or `names.len()`.
pub open spec fn first_named(names: Seq<String>, wanted: Seq<char>) -> int
    decreases names.len(),
{
    if names.len() == 0 {
        0
    } else if names[0]@ == wanted {
        0
    } else {
        1 + first_named(names.drop_first(), wanted)
    }
}

/// The theme to start with: the first theme named as the settings ask,
/// else the default.
pub fn theme_index(names: &[String], wanted: &str, default_index: usize) -> (r: usize)
    ensures
        first_named(names@, wanted@) < names@.len() ==> r == first_named(names@, wanted@),
        first_named(names@, wanted@) >= names@.len() ==> r == default_index,
{
    let mut i: usize = 0;
    while i < names.len()
        invariant
            0 <= i <= names@.len(),
            forall|k: int| 0 <= k < i ==> names@[k]@ != wanted@,
        decreases names@.len() - i,
    {
        if text_is(names[i].as_str(), wanted) {
            proof {
                lemma_first_named_at(names@, wanted@, i as int);
            }
            return i;
        }
        i = i + 1;
    }
    proof {
        lemma_first_named_at(names@, wanted@, names@.len() as int);
    }
    default_index
}

/// When no name before `i` is `wanted` and the one at `i` is (or `i` is
/// the end), the first named is `i`.
proof fn lemma_first_named_at(names: Seq<String>, wanted: Seq<char>, i: int)
    requires
        0 <= i <= names.len(),
        forall|k: int| 0 <= k < i ==> names[k]@ != wanted,
        i < names.len() ==> names[i]@ == wanted,
    ensures
        first_named(names, wanted) == i,
    decreases i,
{
    if i > 0 {
        assert forall|k: int| 0 <= k < i - 1 implies names.drop_first()[k]@ != wanted by {
            assert(names.drop_first()[k] == names[k + 1]);
        }
        if i < names.len() {
            assert(names.drop_first()[i - 1] == names[i]);
        }
        lemma_first_named_at(names.drop_first(), wanted, i - 1);
    }
}

} // verus!
