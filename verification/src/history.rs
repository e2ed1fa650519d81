//! Undo/redo history with version groups.
//!
//! Every pushed change gets a version; changes that share a version form one
//! group, and `undo`/`redo` move a whole group between the two stacks.

use std::time::{Duration, Instant};
use vstd::prelude::*;
use vstd::std_specs::cmp::PartialEqSpec;

verus! {

#[verifier::external_type_specification]
#[verifier::external_body]
pub struct ExInstant(std::time::Instant);

/// A change that can be kept in a [`History`].
pub trait HistoryItem: Clone + PartialEq {
    /// The version the change carries.
    spec fn spec_version(&self) -> usize;

    fn version(&self) -> (r: usize)
        ensures
            r == self.spec_version(),
    ;

    /// The change with its version set to `version` and nothing else
    /// changed.
    spec fn with_version(&self, version: usize) -> Self;

    fn set_version(&mut self, version: usize)
        ensures
            *final(self) == old(self).with_version(version),
            final(self).spec_version() == version,
    ;
}

/// `Instant::now`: the current time.
#[verifier::external_body]
fn instant_now() -> Instant {
    Instant::now()
}

/// `Instant::elapsed`: time passed since `t`.
#[verifier::external_body]
fn instant_elapsed(t: &Instant) -> Duration {
    t.elapsed()
}

/// The whole nanoseconds that a duration holds, as `Duration::as_nanos`
/// gives them.
pub uninterp spec fn duration_ns(d: Duration) -> u128;

/// `Duration::as_nanos`: the whole nanoseconds a duration holds. The count
/// depends on the duration alone; which count a given duration has is named
/// [`duration_ns`] and not spelt out here.
#[verifier::external_body]
fn duration_nanos(d: &Duration) -> (r: u128)
    ensures
        r == duration_ns(*d),
{
    d.as_nanos()
}

/// The version a change takes: one more than `version`, unless an explicit
/// group is open or the change comes no later than `interval` nanoseconds
/// (when there is an interval) after the one before; `elapsed` is the time
/// since that one.
pub open spec fn version_after(version: usize, grouping: bool, interval: Option<u128>, elapsed: u128) -> int {
    if !grouping && match interval {
        None => true,
        Some(g) => elapsed > g,
    } {
        version + 1
    } else {
        version as int
    }
}

/// The version a change takes, given the time since the change before it.
pub fn next_version(version: usize, grouping: bool, interval: Option<u128>, elapsed: u128) -> (r: usize)
    requires
        version < usize::MAX,
    ensures
        r == version_after(version, grouping, interval, elapsed),
{
    let past = match interval {
        None => true,
        Some(g) => elapsed > g,
    };
    if !grouping && past {
        version + 1
    } else {
        version
    }
}

/// What one undo or redo hands back for the group `g` (top first): a clone
/// of its top change, then the other changes themselves.
pub open spec fn handed_back<I: HistoryItem>(g: Seq<I>, ch: Seq<I>) -> bool {
    &&& ch.len() == g.len()
    &&& (g.len() > 0 ==> cloned(g[0], ch[0]))
    &&& forall|k: int| 1 <= k < g.len() ==> ch[k] == g[k]
}

/// `b` holds clones of the changes of `a`, in order.
pub open spec fn clones_of<I: HistoryItem>(a: Seq<I>, b: Seq<I>) -> bool {
    &&& b.len() == a.len()
    &&& forall|k: int| 0 <= k < a.len() ==> cloned(a[k], #[trigger] b[k])
}

/// Cloning a change gives an equal change.
pub open spec fn clones_exactly<I: HistoryItem>() -> bool {
    forall|a: I, b: I| #[trigger] cloned(a, b) ==> a == b
}

/// With exact clones, what an undo or redo hands back is the group itself,
/// and so are the clones it stacks.
proof fn lemma_exact_clones<I: HistoryItem>(g: Seq<I>, ch: Seq<I>, t: Seq<I>)
    requires
        clones_exactly::<I>(),
        handed_back(g, ch),
        clones_of(ch, t),
    ensures
        ch == g,
        t == g,
{
    if g.len() > 0 {
        assert(cloned(g[0], ch[0]));
    }
    assert(ch =~= g);
    assert forall|k: int| 0 <= k < ch.len() implies t[k] == ch[k] by {
        assert(cloned(ch[k], t[k]));
    }
    assert(t =~= ch);
}

/// Index of the first element of `s` whose version is `v`, or `s.len()`.
pub open spec fn first_with_version<I: HistoryItem>(s: Seq<I>, v: usize) -> int
    decreases s.len(),
{
    if s.len() == 0 {
        0
    } else if s[0].spec_version() == v {
        0
    } else {
        1 + first_with_version(s.drop_first(), v)
    }
}

/// Where the last group of a nonempty stack starts: the first earlier
/// element with the version of the top, or the top itself.
pub open spec fn group_start<I: HistoryItem>(s: Seq<I>) -> int {
    first_with_version(s.drop_last(), s.last().spec_version())
}

/// The changes one undo (or redo) takes off a nonempty stack, top first.
pub open spec fn top_group<I: HistoryItem>(s: Seq<I>) -> Seq<I> {
    s.subrange(group_start(s), s.len() as int).reverse()
}

/// The two stacks after moving the top group of `from` onto `to`.
pub open spec fn move_group<I: HistoryItem>(from: Seq<I>, to: Seq<I>) -> (Seq<I>, Seq<I>) {
    (from.take(group_start(from)), to + top_group(from))
}

/// Whether `s` holds an element with version `v`.
pub open spec fn holds_version<I: HistoryItem>(s: Seq<I>, v: usize) -> bool {
    exists|j: int| 0 <= j < s.len() && (#[trigger] s[j]).spec_version() == v
}

/// The elements of `s` that are not equal to `item` by `PartialEq`.
pub open spec fn without<I: HistoryItem>(s: Seq<I>, item: I) -> Seq<I> {
    s.filter(|c: I| !c.eq_spec(&item))
}

proof fn lemma_first_with_version_bounds<I: HistoryItem>(s: Seq<I>, v: usize)
    ensures
        0 <= first_with_version(s, v) <= s.len(),
        first_with_version(s, v) < s.len() ==> s[first_with_version(s, v)].spec_version() == v,
        forall|j: int| 0 <= j < first_with_version(s, v) ==> (#[trigger] s[j]).spec_version() != v,
        holds_version(s, v) <==> first_with_version(s, v) < s.len(),
    decreases s.len(),
{
    if s.len() > 0 && s[0].spec_version() != v {
        let t = s.drop_first();
        lemma_first_with_version_bounds(t, v);
        assert forall|j: int| 0 <= j < first_with_version(s, v) implies (#[trigger] s[j]).spec_version() != v by {
            if j > 0 {
                assert(s[j] == t[j - 1]);
            }
        }
        if holds_version(s, v) {
            let j = choose|j: int| 0 <= j < s.len() && (#[trigger] s[j]).spec_version() == v;
            assert(t[j - 1] == s[j]);
            assert(holds_version(t, v));
        }
        if holds_version(t, v) {
            let j = choose|j: int| 0 <= j < t.len() && (#[trigger] t[j]).spec_version() == v;
            assert(s[j + 1] == t[j]);
        }
    } else if s.len() > 0 {
        assert(holds_version(s, v));
    }
}

proof fn lemma_first_with_version_take<I: HistoryItem>(s: Seq<I>, v: usize, m: int)
    requires
        first_with_version(s, v) <= m <= s.len(),
    ensures
        first_with_version(s.take(m), v) == first_with_version(s, v),
    decreases s.len(),
{
    if s.len() > 0 && s[0].spec_version() != v {
        lemma_first_with_version_bounds(s, v);
        assert(s.take(m).drop_first() =~= s.drop_first().take(m - 1));
        lemma_first_with_version_take(s.drop_first(), v, m - 1);
    }
}

proof fn lemma_first_with_version_concat<I: HistoryItem>(a: Seq<I>, b: Seq<I>, v: usize)
    requires
        !holds_version(a, v),
    ensures
        first_with_version(a + b, v) == a.len() + first_with_version(b, v),
    decreases a.len(),
{
    if a.len() > 0 {
        assert(a[0] == (a + b)[0]);
        assert((a + b).drop_first() =~= a.drop_first() + b);
        if holds_version(a.drop_first(), v) {
            let j = choose|j: int| 0 <= j < a.drop_first().len() && (#[trigger] a.drop_first()[j]).spec_version() == v;
            assert(a[j + 1] == a.drop_first()[j]);
        }
        lemma_first_with_version_concat(a.drop_first(), b, v);
    } else {
        assert(a + b =~= b);
    }
}

/// Moving the top group of one stack onto another and then moving the top
/// group back restores both stacks, provided the receiving stack held no
/// change with the moved group's version. For a history this says that a
/// redo right after an undo, or an undo right after a redo, restores the
/// undo and redo stacks.
pub proof fn lemma_move_group_back<I: HistoryItem>(from: Seq<I>, to: Seq<I>)
    requires
        from.len() > 0,
        !holds_version(to, from.last().spec_version()),
    ensures
        ({
            let (from1, to1) = move_group(from, to);
            let (to2, from2) = move_group(to1, from1);
            from2 == from && to2 == to
        }),
{
    let n = from.len() - 1;
    let v = from.last().spec_version();
    let f = group_start(from);
    assert(from.drop_last() =~= from.take(n));
    lemma_first_with_version_bounds(from.take(n), v);
    let g = top_group(from);
    let to1 = to + g;
    assert(g.len() == from.len() - f);
    assert(g.last() == from[f]);
    assert(to1.last() == from[f]);
    assert(to1.last().spec_version() == v);
    assert(g[0] == from[n]);
    if g.len() >= 2 {
        assert(to1.drop_last() =~= to + g.drop_last());
        lemma_first_with_version_concat(to, g.drop_last(), v);
        assert(g.drop_last()[0] == g[0]);
    } else {
        assert(to1.drop_last() =~= to + Seq::<I>::empty());
        lemma_first_with_version_concat(to, Seq::<I>::empty(), v);
    }
    assert(group_start(to1) == to.len());
    assert(to1.subrange(to.len() as int, to1.len() as int) =~= g);
    assert(g.reverse() =~= from.subrange(f, from.len() as int));
    assert(from.take(f) + from.subrange(f, from.len() as int) =~= from);
    assert(to1.take(to.len() as int) =~= to);
}

/// Undo right after pushing a change whose version is newer than every
/// earlier change takes back exactly that change.
pub proof fn lemma_undo_takes_back_push<I: HistoryItem>(kept: Seq<I>, item: I, redos: Seq<I>)
    requires
        forall|j: int| 0 <= j < kept.len() ==> (#[trigger] kept[j]).spec_version() < item.spec_version(),
    ensures
        move_group(kept.push(item), redos) == (kept, redos.push(item)),
{
    let s = kept.push(item);
    assert(s.drop_last() =~= kept);
    lemma_first_with_version_bounds(kept, item.spec_version());
    assert(first_with_version(kept, item.spec_version()) == kept.len());
    assert(s.subrange(kept.len() as int, s.len() as int) =~= seq![item]);
    assert(seq![item].reverse() =~= seq![item]);
    assert(s.take(kept.len() as int) =~= kept);
    assert(redos + seq![item] =~= redos.push(item));
}

/// A redo right after an undo hands back the undone group in the opposite
/// order (oldest first), and restores both stacks; so does an undo right
/// after a redo. With exact clones this is what `undo` and `redo` give.
pub proof fn lemma_redo_reverses_undo<I: HistoryItem>(from: Seq<I>, to: Seq<I>)
    requires
        from.len() > 0,
        !holds_version(to, from.last().spec_version()),
    ensures
        ({
            let (from1, to1) = move_group(from, to);
            &&& to1.len() > 0
            &&& top_group(to1) == top_group(from).reverse()
            &&& move_group(to1, from1) == (to, from)
        }),
{
    lemma_move_group_back(from, to);
    let (from1, to1) = move_group(from, to);
    let n = from.len() - 1;
    assert(from.drop_last() =~= from.take(n));
    lemma_first_with_version_bounds(from.take(n), from.last().spec_version());
    let f = group_start(from);
    let g = top_group(from);
    assert(g.len() > 0);
    assert(to1.len() > 0);
    let (to2, from2) = move_group(to1, from1);
    assert(from2 == from1 + top_group(to1));
    assert(from1 =~= from.take(f));
    assert(top_group(to1) =~= from2.skip(f));
    assert(from.skip(f) =~= from.subrange(f, from.len() as int));
    assert(g.reverse() =~= from.subrange(f, from.len() as int));
}

/// The version rule of a push: inside an explicit group the version stays;
/// otherwise, without an interval, it grows by one; with an interval it
/// grows by one exactly when more time than the interval has passed since
/// the change before.
pub proof fn lemma_version_rule(version: usize, interval: Option<u128>, elapsed: u128)
    ensures
        version_after(version, true, interval, elapsed) == version,
        version_after(version, false, None, elapsed) == version + 1,
        interval matches Some(g) ==> version_after(version, false, interval, elapsed) == if elapsed > g {
            version + 1
        } else {
            version as int
        },
{
}

/// Once the explicit group is closed (and with no interval), the next
/// change gets a version of its own: an undo right after it takes back
/// that change alone.
pub proof fn lemma_push_after_group_stands_alone<I: HistoryItem>(
    version: usize,
    elapsed: u128,
    kept: Seq<I>,
    top: I,
    redos: Seq<I>,
)
    requires
        forall|j: int| 0 <= j < kept.len() ==> (#[trigger] kept[j]).spec_version() <= version,
        top.spec_version() == version_after(version, false, None, elapsed),
    ensures
        move_group(kept.push(top), redos) == (kept, redos.push(top)),
{
    lemma_undo_takes_back_push(kept, top, redos);
}

/// With an interval set from `d` and no explicit group open, a change pushed
/// no more than `d` after the one before keeps the current version, so the
/// two are undone together; one pushed later starts a version of its own.
pub proof fn lemma_interval_groups_close_changes<I: HistoryItem>(h: History<I>, d: Duration, elapsed: u128)
    requires
        h.interval() == Some(duration_ns(d)),
        !h.is_grouping(),
    ensures
        version_after(h.current_version(), h.is_grouping(), h.interval(), elapsed) == if elapsed
            <= duration_ns(d) {
            h.current_version() as int
        } else {
            h.current_version() + 1
        },
{
}

/// Undo/redo history of changes of type `I`.
pub struct History<I: HistoryItem> {
    undos: Vec<I>,
    redos: Vec<I>,
    last_changed_at: Instant,
    version: usize,
    pub(crate) ignore: bool,
    max_undos: usize,
    group_interval: Option<u128>,
    grouping: bool,
    unique: bool,
}

impl<I: HistoryItem> History<I> {
    /// The undo stack, oldest first.
    pub closed spec fn undo_stack(&self) -> Seq<I> {
        self.undos@
    }

    /// The redo stack, oldest first.
    pub closed spec fn redo_stack(&self) -> Seq<I> {
        self.redos@
    }

    /// The current version.
    pub closed spec fn current_version(&self) -> usize {
        self.version
    }

    /// No stored change carries a version newer than the current one.
    pub closed spec fn versions_within(&self) -> bool {
        &&& forall|j: int| 0 <= j < self.undos@.len() ==> (#[trigger] self.undos@[j]).spec_version() <= self.version
        &&& forall|j: int| 0 <= j < self.redos@.len() ==> (#[trigger] self.redos@[j]).spec_version() <= self.version
    }

    /// The undo limit.
    pub closed spec fn undo_limit(&self) -> usize {
        self.max_undos
    }

    /// Whether pushing a change first removes equal changes from both stacks.
    pub closed spec fn is_unique(&self) -> bool {
        self.unique
    }

    /// Whether an explicit group is open.
    pub closed spec fn is_grouping(&self) -> bool {
        self.grouping
    }

    /// Whether changes within a time interval are grouped together.
    pub closed spec fn has_group_interval(&self) -> bool {
        self.group_interval is Some
    }

    /// The grouping interval in nanoseconds, if any.
    pub closed spec fn interval(&self) -> Option<u128> {
        self.group_interval
    }

    /// The flag that the owner may set to stop recording.
    pub closed spec fn is_ignoring(&self) -> bool {
        self.ignore
    }

    /// An empty history: limit 1000, no grouping, not unique.
    pub fn new() -> (r: Self)
        ensures
            r.undo_stack() == Seq::<I>::empty(),
            r.redo_stack() == Seq::<I>::empty(),
            r.current_version() == 0,
            r.undo_limit() == 1000,
            !r.is_unique(),
            !r.is_grouping(),
            !r.has_group_interval(),
            r.interval() is None,
            !r.is_ignoring(),
            r.versions_within(),
    {
        History {
            undos: Vec::new(),
            redos: Vec::new(),
            ignore: false,
            last_changed_at: instant_now(),
            version: 0,
            max_undos: 1000,
            group_interval: None,
            grouping: false,
            unique: false,
        }
    }

    /// The same history with another undo limit.
    pub fn max_undos(self, max_undos: usize) -> (r: Self)
        ensures
            r.undo_limit() == max_undos,
            r.undo_stack() == self.undo_stack(),
            r.redo_stack() == self.redo_stack(),
            r.current_version() == self.current_version(),
            r.is_unique() == self.is_unique(),
            r.is_grouping() == self.is_grouping(),
            r.has_group_interval() == self.has_group_interval(),
            r.interval() == self.interval(),
            r.is_ignoring() == self.is_ignoring(),
            self.versions_within() ==> r.versions_within(),
    {
        let mut s = self;
        s.max_undos = max_undos;
        s
    }

    /// The same history, removing equal changes on every push.
    pub fn unique(self) -> (r: Self)
        ensures
            r.is_unique(),
            r.undo_limit() == self.undo_limit(),
            r.undo_stack() == self.undo_stack(),
            r.redo_stack() == self.redo_stack(),
            r.current_version() == self.current_version(),
            r.is_grouping() == self.is_grouping(),
            r.has_group_interval() == self.has_group_interval(),
            r.interval() == self.interval(),
            r.is_ignoring() == self.is_ignoring(),
            self.versions_within() ==> r.versions_within(),
    {
        let mut s = self;
        s.unique = true;
        s
    }

    /// The same history, grouping changes closer together than `group_interval`.
    pub fn group_interval(self, group_interval: Duration) -> (r: Self)
        ensures
            r.has_group_interval(),
            r.interval() == Some(duration_ns(group_interval)),
            r.is_unique() == self.is_unique(),
            r.undo_limit() == self.undo_limit(),
            r.undo_stack() == self.undo_stack(),
            r.redo_stack() == self.redo_stack(),
            r.current_version() == self.current_version(),
            r.is_grouping() == self.is_grouping(),
            r.is_ignoring() == self.is_ignoring(),
            self.versions_within() ==> r.versions_within(),
    {
        let mut s = self;
        s.group_interval = Some(duration_nanos(&group_interval));
        s
    }

    /// Opens an explicit group: pushes keep the current version.
    pub fn start_grouping(&mut self)
        ensures
            final(self).is_grouping(),
            final(self).is_unique() == old(self).is_unique(),
            final(self).undo_limit() == old(self).undo_limit(),
            final(self).undo_stack() == old(self).undo_stack(),
            final(self).redo_stack() == old(self).redo_stack(),
            final(self).current_version() == old(self).current_version(),
            final(self).has_group_interval() == old(self).has_group_interval(),
            final(self).interval() == old(self).interval(),
            final(self).is_ignoring() == old(self).is_ignoring(),
            old(self).versions_within() ==> final(self).versions_within(),
    {
        self.grouping = true;
    }

    /// Closes the explicit group.
    pub fn end_grouping(&mut self)
        ensures
            !final(self).is_grouping(),
            final(self).is_unique() == old(self).is_unique(),
            final(self).undo_limit() == old(self).undo_limit(),
            final(self).undo_stack() == old(self).undo_stack(),
            final(self).redo_stack() == old(self).redo_stack(),
            final(self).current_version() == old(self).current_version(),
            final(self).has_group_interval() == old(self).has_group_interval(),
            final(self).interval() == old(self).interval(),
            final(self).is_ignoring() == old(self).is_ignoring(),
            old(self).versions_within() ==> final(self).versions_within(),
    {
        self.grouping = false;
    }

    /// Advances the version unless the change joins the current group.
    fn inc_version(&mut self) -> (r: usize)
        requires
            old(self).version < usize::MAX,
        ensures
            r == final(self).version,
            exists|e: u128| final(self).version == version_after(old(self).version, old(self).grouping, old(self).group_interval, e),
            final(self).undos == old(self).undos,
            final(self).redos == old(self).redos,
            final(self).max_undos == old(self).max_undos,
            final(self).unique == old(self).unique,
            final(self).grouping == old(self).grouping,
            final(self).group_interval == old(self).group_interval,
            final(self).ignore == old(self).ignore,
    {
        let t = instant_now();
        let since = instant_elapsed(&self.last_changed_at);
        let e = duration_nanos(&since);
        self.version = next_version(self.version, self.grouping, self.group_interval, e);
        self.last_changed_at = t;
        self.version
    }

    /// The current version.
    pub fn version(&self) -> (r: usize)
        ensures
            r == self.current_version(),
    {
        self.version
    }

    /// Records a change: drops the oldest change when the limit is reached,
    /// drops equal changes in unique mode, and stores `item` with the new
    /// version on top of the undo stack.
    pub fn push(&mut self, item: I)
        requires
            old(self).current_version() < usize::MAX,
            old(self).undo_stack().len() >= old(self).undo_limit() ==> old(self).undo_stack().len()
                > 0,
        ensures
            ({
                let kept = if old(self).undo_stack().len() >= old(self).undo_limit() {
                    old(self).undo_stack().drop_first()
                } else {
                    old(self).undo_stack()
                };
                let n = final(self).undo_stack().len();
                &&& n > 0
                &&& final(self).undo_stack().last() == item.with_version(final(self).current_version())
                &&& final(self).undo_stack().last().spec_version() == final(self).current_version()
                &&& (!old(self).is_unique() ==> final(self).undo_stack().drop_last() == kept
                    && final(self).redo_stack() == old(self).redo_stack())
                &&& (old(self).is_unique() && I::obeys_eq_spec() ==> final(self).undo_stack().drop_last()
                    == without(kept, item) && final(self).redo_stack() == without(old(self).redo_stack(), item))
            }),
            exists|e: u128|
                final(self).current_version() == version_after(
                    old(self).current_version(),
                    old(self).is_grouping(),
                    old(self).interval(),
                    e,
                ),
            old(self).is_grouping() ==> final(self).current_version() == old(self).current_version(),
            !old(self).is_grouping() && !old(self).has_group_interval()
                ==> final(self).current_version() == old(self).current_version() + 1,
            final(self).current_version() == old(self).current_version()
                || final(self).current_version() == old(self).current_version() + 1,
            final(self).undo_limit() == old(self).undo_limit(),
            final(self).is_unique() == old(self).is_unique(),
            final(self).is_grouping() == old(self).is_grouping(),
            final(self).has_group_interval() == old(self).has_group_interval(),
            final(self).interval() == old(self).interval(),
            final(self).is_ignoring() == old(self).is_ignoring(),
            old(self).versions_within() ==> final(self).versions_within(),
    {
        let version = self.inc_version();
        let ghost e = choose|e: u128|
            self.version == version_after(old(self).version, old(self).grouping, old(self).group_interval, e);
        if self.undos.len() >= self.max_undos {
            self.undos.remove(0);
        }
        let ghost kept = self.undos@;
        if self.unique {
            retain_unequal(&mut self.undos, &item);
            retain_unequal(&mut self.redos, &item);
        }
        let ghost filtered = self.undos@;
        let mut item = item;
        item.set_version(version);
        self.undos.push(item);
        assert(self.undos@.drop_last() =~= filtered);
        assert(self.version == version_after(old(self).version, old(self).grouping, old(self).group_interval, e));
        assert(self.current_version() == version_after(
            old(self).current_version(),
            old(self).is_grouping(),
            old(self).interval(),
            e,
        ));
    }

    /// The undo stack, oldest first.
    pub fn undos(&self) -> (r: &Vec<I>)
        ensures
            r@ == self.undo_stack(),
    {
        &self.undos
    }

    /// The redo stack, oldest first.
    pub fn redos(&self) -> (r: &Vec<I>)
        ensures
            r@ == self.redo_stack(),
    {
        &self.redos
    }

    /// Empties both stacks.
    pub fn clear(&mut self)
        ensures
            final(self).undo_stack() == Seq::<I>::empty(),
            final(self).redo_stack() == Seq::<I>::empty(),
            final(self).current_version() == old(self).current_version(),
            final(self).undo_limit() == old(self).undo_limit(),
            final(self).is_unique() == old(self).is_unique(),
            final(self).is_grouping() == old(self).is_grouping(),
            final(self).has_group_interval() == old(self).has_group_interval(),
            final(self).interval() == old(self).interval(),
            final(self).is_ignoring() == old(self).is_ignoring(),
            old(self).versions_within() ==> final(self).versions_within(),
    {
        self.undos.clear();
        self.redos.clear();
    }

    /// Takes the newest group off the undo stack and returns its changes,
    /// newest first (the newest as a clone); the redo stack gets clones of
    /// them. `None` when there is nothing to undo.
    pub fn undo(&mut self) -> (r: Option<Vec<I>>)
        ensures
            old(self).undo_stack().len() == 0 ==> r is None && final(self).undo_stack() == old(self).undo_stack() && final(self).redo_stack() == old(self).redo_stack(),
            old(self).undo_stack().len() > 0 ==> (r matches Some(ch) && handed_back(top_group(old(self).undo_stack()), ch@)
                && final(self).undo_stack() == move_group(old(self).undo_stack(), old(self).redo_stack()).0
                && final(self).redo_stack().take(old(self).redo_stack().len() as int) == old(self).redo_stack()
                && clones_of(ch@, final(self).redo_stack().skip(old(self).redo_stack().len() as int))),
            clones_exactly::<I>() && old(self).undo_stack().len() > 0 ==> (final(self).undo_stack(), final(self).redo_stack())
                == move_group(old(self).undo_stack(), old(self).redo_stack()) && (r matches Some(ch) && ch@ == top_group(
                old(self).undo_stack(),
            )),
            final(self).current_version() == old(self).current_version(),
            final(self).undo_limit() == old(self).undo_limit(),
            final(self).is_unique() == old(self).is_unique(),
            final(self).is_grouping() == old(self).is_grouping(),
            final(self).has_group_interval() == old(self).has_group_interval(),
            final(self).interval() == old(self).interval(),
            final(self).is_ignoring() == old(self).is_ignoring(),
            clones_exactly::<I>() && old(self).versions_within() ==> final(self).versions_within(),
    {
        let ghost from = self.undos@;
        let ghost to = self.redos@;
        let r = move_top_group(&mut self.undos, &mut self.redos);
        proof {
            if from.len() > 0 && clones_exactly::<I>() {
                let ch = r->0@;
                let t = self.redos@.skip(to.len() as int);
                lemma_exact_clones(top_group(from), ch, t);
                assert(self.redos@ =~= self.redos@.take(to.len() as int) + t);
            }
            if from.len() > 0 && clones_exactly::<I>() && old(self).versions_within() {
                lemma_move_group_members(from, to, self.version);
                let mg = move_group(from, to);
                assert(self.undos@ == mg.0);
                assert(self.redos@ == mg.1);
                assert forall|j: int| 0 <= j < self.undos@.len() implies (#[trigger] self.undos@[j]).spec_version() <= self.version by {
                    assert(self.undos@[j] == mg.0[j]);
                }
                assert forall|j: int| 0 <= j < self.redos@.len() implies (#[trigger] self.redos@[j]).spec_version() <= self.version by {
                    assert(self.redos@[j] == mg.1[j]);
                }
            }
        }
        r
    }

    /// Takes the newest group off the redo stack and returns its changes,
    /// newest first (the newest as a clone); the undo stack gets clones of
    /// them. `None` when there is nothing to redo.
    pub fn redo(&mut self) -> (r: Option<Vec<I>>)
        ensures
            old(self).redo_stack().len() == 0 ==> r is None && final(self).undo_stack() == old(self).undo_stack() && final(self).redo_stack() == old(self).redo_stack(),
            old(self).redo_stack().len() > 0 ==> (r matches Some(ch) && handed_back(top_group(old(self).redo_stack()), ch@)
                && final(self).redo_stack() == move_group(old(self).redo_stack(), old(self).undo_stack()).0
                && final(self).undo_stack().take(old(self).undo_stack().len() as int) == old(self).undo_stack()
                && clones_of(ch@, final(self).undo_stack().skip(old(self).undo_stack().len() as int))),
            clones_exactly::<I>() && old(self).redo_stack().len() > 0 ==> (final(self).redo_stack(), final(self).undo_stack())
                == move_group(old(self).redo_stack(), old(self).undo_stack()) && (r matches Some(ch) && ch@ == top_group(
                old(self).redo_stack(),
            )),
            final(self).current_version() == old(self).current_version(),
            final(self).undo_limit() == old(self).undo_limit(),
            final(self).is_unique() == old(self).is_unique(),
            final(self).is_grouping() == old(self).is_grouping(),
            final(self).has_group_interval() == old(self).has_group_interval(),
            final(self).interval() == old(self).interval(),
            final(self).is_ignoring() == old(self).is_ignoring(),
            clones_exactly::<I>() && old(self).versions_within() ==> final(self).versions_within(),
    {
        let ghost from = self.redos@;
        let ghost to = self.undos@;
        let r = move_top_group(&mut self.redos, &mut self.undos);
        proof {
            if from.len() > 0 && clones_exactly::<I>() {
                let ch = r->0@;
                let t = self.undos@.skip(to.len() as int);
                lemma_exact_clones(top_group(from), ch, t);
                assert(self.undos@ =~= self.undos@.take(to.len() as int) + t);
            }
            if from.len() > 0 && clones_exactly::<I>() && old(self).versions_within() {
                lemma_move_group_members(from, to, self.version);
                let mg = move_group(from, to);
                assert(self.redos@ == mg.0);
                assert(self.undos@ == mg.1);
                assert forall|j: int| 0 <= j < self.redos@.len() implies (#[trigger] self.redos@[j]).spec_version() <= self.version by {
                    assert(self.redos@[j] == mg.0[j]);
                }
                assert forall|j: int| 0 <= j < self.undos@.len() implies (#[trigger] self.undos@[j]).spec_version() <= self.version by {
                    assert(self.undos@[j] == mg.1[j]);
                }
            }
        }
        r
    }
}

/// Removes from `v` the elements equal to `item` (`Vec::retain` with `!=`).
fn retain_unequal<I: HistoryItem>(v: &mut Vec<I>, item: &I)
    ensures
        I::obeys_eq_spec() ==> final(v)@ == without(old(v)@, *item),
        forall|k: int| 0 <= k < final(v)@.len() ==> old(v)@.contains(#[trigger] final(v)@[k]),
{
    let ghost orig = v@;
    let mut i: usize = 0;
    let ghost mut j: int = 0;
    proof {
        assert(orig.take(0).filter(|c: I| !c.eq_spec(item)) =~= Seq::<I>::empty()) by {
            reveal_with_fuel(Seq::<_>::filter, 1);
        }
        assert(orig.skip(0) =~= orig);
    }
    while i < v.len()
        invariant
            0 <= j <= orig.len(),
            v@.len() == i + (orig.len() - j),
            v@.skip(i as int) == orig.skip(j),
            I::obeys_eq_spec() ==> v@.take(i as int) == without(orig.take(j), *item),
            forall|k: int| 0 <= k < i ==> orig.contains(#[trigger] v@[k]),
        decreases v@.len() - i,
    {
        proof {
            assert(v@.skip(i as int)[0] == v@[i as int]);
            assert(orig.skip(j)[0] == orig[j]);
            assert(v@[i as int] == orig[j]);
            assert(orig.take(j + 1).drop_last() =~= orig.take(j));
            reveal_with_fuel(Seq::<_>::filter, 1);
        }
        assert(orig.contains(orig[j]));
        let drop = v[i] == *item;
        if drop {
            let ghost before = v@;
            v.remove(i);
            proof {
                assert(v@.skip(i as int) =~= before.skip(i + 1));
                assert(before.skip(i + 1) =~= orig.skip(j + 1)) by {
                    assert(before.skip(i as int).drop_first() =~= before.skip(i + 1));
                    assert(orig.skip(j).drop_first() =~= orig.skip(j + 1));
                }
                assert(v@.take(i as int) =~= before.take(i as int));
            }
        } else {
            proof {
                assert(v@.take(i + 1) =~= v@.take(i as int).push(orig[j]));
                assert(v@.skip(i + 1) =~= orig.skip(j + 1)) by {
                    assert(v@.skip(i as int).drop_first() =~= v@.skip(i + 1));
                    assert(orig.skip(j).drop_first() =~= orig.skip(j + 1));
                }
            }
            i = i + 1;
        }
        proof {
            j = j + 1;
        }
    }
    proof {
        assert(orig.take(j) =~= orig);
        assert(v@.take(i as int) =~= v@);
    }
}

proof fn lemma_move_group_members<I: HistoryItem>(from: Seq<I>, to: Seq<I>, bound: usize)
    requires
        from.len() > 0,
        forall|j: int| 0 <= j < from.len() ==> (#[trigger] from[j]).spec_version() <= bound,
        forall|j: int| 0 <= j < to.len() ==> (#[trigger] to[j]).spec_version() <= bound,
    ensures
        forall|j: int| 0 <= j < move_group(from, to).0.len() ==> (#[trigger] move_group(from, to).0[j]).spec_version() <= bound,
        forall|j: int| 0 <= j < move_group(from, to).1.len() ==> (#[trigger] move_group(from, to).1[j]).spec_version() <= bound,
{
    let n = from.len() - 1;
    assert(from.drop_last() =~= from.take(n));
    lemma_first_with_version_bounds(from.take(n), from.last().spec_version());
    let f = group_start(from);
    let g = top_group(from);
    assert forall|j: int| 0 <= j < move_group(from, to).1.len() implies (#[trigger] move_group(from, to).1[j]).spec_version() <= bound by {
        if j >= to.len() {
            assert(move_group(from, to).1[j] == g[j - to.len()]);
            assert(g[j - to.len()] == from[from.len() - 1 - (j - to.len())]);
        }
    }
}

/// Whether some element of `v` has version `ver`.
fn has_version<I: HistoryItem>(v: &Vec<I>, ver: usize) -> (r: bool)
    ensures
        r == holds_version(v@, ver),
{
    let mut i: usize = 0;
    while i < v.len()
        invariant
            0 <= i <= v@.len(),
            forall|j: int| 0 <= j < i ==> (#[trigger] v@[j]).spec_version() != ver,
        decreases v@.len() - i,
    {
        if v[i].version() == ver {
            return true;
        }
        i = i + 1;
    }
    false
}

/// Takes the top group off `from` and hands it back, top first: a clone of
/// the top change, then the others themselves; `to` gets clones of what is
/// handed back.
fn move_top_group<I: HistoryItem>(from: &mut Vec<I>, to: &mut Vec<I>) -> (r: Option<Vec<I>>)
    ensures
        old(from)@.len() == 0 ==> r is None && final(from)@ == old(from)@ && final(to)@ == old(to)@,
        old(from)@.len() > 0 ==> (r matches Some(ch) && handed_back(top_group(old(from)@), ch@) && final(from)@
            == old(from)@.take(group_start(old(from)@)) && final(to)@.len() == old(to)@.len() + ch@.len()
            && final(to)@.take(old(to)@.len() as int) == old(to)@
            && clones_of(ch@, final(to)@.skip(old(to)@.len() as int))),
{
    let ghost u = from@;
    let ghost t0 = to@;
    match from.pop() {
        None => None,
        Some(first) => {
            let ghost n = u.len() - 1;
            let ver = first.version();
            let ghost f = group_start(u);
            proof {
                assert(u.drop_last() =~= u.take(n));
                lemma_first_with_version_bounds(u.take(n), ver);
            }
            let mut changes: Vec<I> = Vec::new();
            let top = first.clone();
            changes.push(top);
            loop
                invariant
                    0 <= f <= from@.len() <= n,
                    n + 1 == u.len(),
                    first == u[n],
                    from@ == u.take(from@.len() as int),
                    f == first_with_version(u.take(n), ver),
                    ver == u[n].spec_version(),
                    changes@.len() == u.len() - from@.len(),
                    cloned(u[n], changes@[0]),
                    forall|k: int| 1 <= k < changes@.len() ==> changes@[k] == u[n - k],
                    first_with_version(from@, ver) == f,
                ensures
                    from@.len() == f,
                    from@ == u.take(f),
                    changes@.len() == u.len() - f,
                    cloned(u[n], changes@[0]),
                    forall|k: int| 1 <= k < changes@.len() ==> changes@[k] == u[n - k],
                decreases from@.len(),
            {
                let more = has_version(from, ver);
                proof {
                    lemma_first_with_version_bounds(from@, ver);
                }
                if !more {
                    break ;
                }
                let ghost m: int = from@.len() as int;
                assert(f < m);
                assert(1 <= m <= n);
                let ghost prev = from@;
                assert(prev == u.take(m));
                let c = from.pop().unwrap();
                proof {
                    assert(from@ == prev.drop_last());
                    assert(u.take(m).drop_last() =~= u.take(m - 1));
                    assert(from@ =~= u.take(m - 1));
                    lemma_first_with_version_take(u.take(n), ver, m - 1);
                    assert(u.take(n).take(m - 1) =~= u.take(m - 1));
                    assert(u.take(n).take(m as int) =~= u.take(m as int));
                    lemma_first_with_version_take(u.take(n), ver, m);
                    assert(c == u[m - 1]);
                }
                changes.push(c);
            }
            let mut copies: Vec<I> = Vec::new();
            let mut k: usize = 0;
            while k < changes.len()
                invariant
                    0 <= k <= changes@.len(),
                    copies@.len() == k,
                    forall|j: int| 0 <= j < k ==> cloned(changes@[j], #[trigger] copies@[j]),
                decreases changes@.len() - k,
            {
                let c = changes[k].clone();
                copies.push(c);
                k = k + 1;
            }
            let ghost cs = copies@;
            to.append(&mut copies);
            proof {
                assert(u.take(f) =~= from@);
                let g = top_group(u);
                assert(g.len() == changes@.len());
                assert forall|k: int| 0 <= k < g.len() implies g[k] == u[n - k] by {}
                assert(to@.take(t0.len() as int) =~= t0);
                assert(to@.skip(t0.len() as int) =~= cs);
            }
            Some(changes)
        },
    }
}

} // verus!
