//! Ordering of texts and a stable sort by key.
//!
//! Strings order byte-wise, and for UTF-8 that is the order of the code
//! points, so texts are compared here character by character.

use vstd::prelude::*;

verus! {

/// `a` comes strictly before `b` in lexicographic code-point order.
pub open spec fn lex_lt(a: Seq<char>, b: Seq<char>) -> bool
    decreases a.len(),
{
    if a.len() == 0 {
        b.len() > 0
    } else if b.len() == 0 {
        false
    } else if a[0] != b[0] {
        a[0] < b[0]
    } else {
        lex_lt(a.drop_first(), b.drop_first())
    }
}

/// A sort key: a group number first, then a text.
pub struct SortKey {
    pub group: u8,
    pub text: Vec<char>,
}

/// The mathematical value of a sort key.
pub open spec fn key_view(k: SortKey) -> (int, Seq<char>) {
    (k.group as int, k.text@)
}

/// Key `a` sorts strictly before key `b`.
pub open spec fn key_lt(a: (int, Seq<char>), b: (int, Seq<char>)) -> bool {
    a.0 < b.0 || (a.0 == b.0 && lex_lt(a.1, b.1))
}

/// `x` inserted into `s` after every entry whose key is not greater.
pub open spec fn insert_keyed<T>(s: Seq<(T, (int, Seq<char>))>, x: (T, (int, Seq<char>))) -> Seq<(T, (int, Seq<char>))>
    decreases s.len(),
{
    if s.len() == 0 {
        seq![x]
    } else if !key_lt(x.1, s.last().1) {
        s.push(x)
    } else {
        insert_keyed(s.drop_last(), x).push(s.last())
    }
}

/// `s` sorted by key, entries with equal keys kept in their order (what a
/// stable sort gives).
pub open spec fn sort_keyed<T>(s: Seq<(T, (int, Seq<char>))>) -> Seq<(T, (int, Seq<char>))>
    decreases s.len(),
{
    if s.len() == 0 {
        Seq::empty()
    } else {
        insert_keyed(sort_keyed(s.drop_last()), s.last())
    }
}

/// The items of a keyed sequence, keys dropped.
pub open spec fn items_of<T>(s: Seq<(T, (int, Seq<char>))>) -> Seq<T> {
    s.map_values(|p: (T, (int, Seq<char>))| p.0)
}

/// Whether `a` comes strictly before `b` (`<` on strings).
pub fn lex_less(a: &[char], b: &[char]) -> (r: bool)
    ensures
        r == lex_lt(a@, b@),
{
    let mut i: usize = 0;
    assert(a@.skip(0) =~= a@ && b@.skip(0) =~= b@);
    while i < a.len() && i < b.len()
        invariant
            0 <= i <= a@.len(),
            i <= b@.len(),
            a@.take(i as int) == b@.take(i as int),
            lex_lt(a@, b@) == lex_lt(a@.skip(i as int), b@.skip(i as int)),
        decreases a@.len() - i,
    {
        if a[i] != b[i] {
            proof {
                assert(a@.skip(i as int)[0] == a@[i as int]);
                assert(b@.skip(i as int)[0] == b@[i as int]);
            }
            return a[i] < b[i];
        }
        proof {
            assert(a@.skip(i as int).drop_first() =~= a@.skip(i + 1));
            assert(b@.skip(i as int).drop_first() =~= b@.skip(i + 1));
            assert(a@.take(i + 1) =~= a@.take(i as int).push(a@[i as int]));
            assert(b@.take(i + 1) =~= b@.take(i as int).push(b@[i as int]));
        }
        i = i + 1;
    }
    i < b.len()
}

/// Whether key `a` sorts strictly before key `b`.
fn key_less(a: &SortKey, b: &SortKey) -> (r: bool)
    ensures
        r == key_lt(key_view(*a), key_view(*b)),
{
    a.group < b.group || (a.group == b.group && lex_less(a.text.as_slice(), b.text.as_slice()))
}

/// The mathematical value of a keyed vector.
pub open spec fn keyed_view<T>(s: Seq<(T, SortKey)>) -> Seq<(T, (int, Seq<char>))> {
    s.map_values(|p: (T, SortKey)| (p.0, key_view(p.1)))
}

proof fn lemma_insert_keyed_at<T>(s: Seq<(T, (int, Seq<char>))>, x: (T, (int, Seq<char>)), p: int)
    requires
        0 <= p <= s.len(),
        forall|j: int| p <= j < s.len() ==> key_lt(x.1, #[trigger] s[j].1),
        p == 0 || !key_lt(x.1, s[p - 1].1),
    ensures
        insert_keyed(s, x) == s.take(p) + seq![x] + s.skip(p),
    decreases s.len() - p,
{
    if p == s.len() {
        if s.len() == 0 {
            assert(s.take(p) + seq![x] + s.skip(p) =~= seq![x]);
        } else {
            assert(s.take(p) + seq![x] + s.skip(p) =~= s.push(x));
        }
    } else {
        lemma_insert_keyed_at(s.drop_last(), x, p);
        assert(s.drop_last().take(p) =~= s.take(p));
        assert(s.take(p) + seq![x] + s.skip(p) =~= (s.drop_last().take(p) + seq![x]
            + s.drop_last().skip(p)).push(s.last()));
    }
}

/// Inserts `x` into `v` after every entry whose key is not greater.
fn insert_by_key<T>(v: &mut Vec<(T, SortKey)>, x: (T, SortKey))
    ensures
        keyed_view(final(v)@) == insert_keyed(keyed_view(old(v)@), (x.0, key_view(x.1))),
{
    let ghost s = keyed_view(v@);
    let mut p = v.len();
    while p > 0 && key_less(&x.1, &v[p - 1].1)
        invariant
            p <= v@.len(),
            s == keyed_view(v@),
            forall|j: int| p <= j < v@.len() ==> key_lt(key_view(x.1), #[trigger] s[j].1),
        decreases p,
    {
        p = p - 1;
    }
    let ghost xv = (x.0, key_view(x.1));
    proof {
        lemma_insert_keyed_at(s, xv, p as int);
    }
    v.insert(p, x);
    proof {
        assert(keyed_view(v@) =~= s.take(p as int) + seq![xv] + s.skip(p as int));
    }
}

/// Sorts `items` by key, keeping the order of entries with equal keys.
pub fn stable_sort_by_key<T>(items: Vec<(T, SortKey)>) -> (r: Vec<T>)
    ensures
        r@ == items_of(sort_keyed(keyed_view(items@))),
{
    let ghost all = keyed_view(items@);
    let total = items.len();
    let mut rest = items;
    let mut sorted: Vec<(T, SortKey)> = Vec::new();
    let mut i: usize = 0;
    while rest.len() > 0
        invariant
            all.len() == i + rest@.len(),
            all.len() == total,
            keyed_view(rest@) == all.skip(i as int),
            keyed_view(sorted@) == sort_keyed(all.take(i as int)),
        decreases rest@.len(),
    {
        let ghost before = rest@;
        let x = rest.remove(0);
        proof {
            assert(all[i as int] == (x.0, key_view(x.1))) by {
                assert(keyed_view(before)[0] == all.skip(i as int)[0]);
            }
            assert(keyed_view(rest@) =~= all.skip(i + 1)) by {
                assert(keyed_view(rest@) =~= keyed_view(before).drop_first());
            }
            assert(all.take(i + 1).drop_last() =~= all.take(i as int));
        }
        insert_by_key(&mut sorted, x);
        i = i + 1;
    }
    assert(all.take(i as int) =~= all);
    let ghost s = sorted@;
    let count = sorted.len();
    let mut out: Vec<T> = Vec::new();
    let mut j: usize = 0;
    while sorted.len() > 0
        invariant
            s.len() == j + sorted@.len(),
            s.len() == count,
            sorted@ == s.skip(j as int),
            out@ == items_of(keyed_view(s)).take(j as int),
        decreases sorted@.len(),
    {
        let ghost before = sorted@;
        let (t, _k) = sorted.remove(0);
        proof {
            assert(before[0] == s[j as int]);
            assert(sorted@ =~= s.skip(j + 1));
            assert(items_of(keyed_view(s)).take(j + 1) =~= items_of(keyed_view(s)).take(j as int).push(t));
        }
        out.push(t);
        j = j + 1;
    }
    assert(items_of(keyed_view(s)).take(j as int) =~= items_of(keyed_view(s)));
    out
}

/// Keys in order: no entry's key sorts before an earlier one's.
pub open spec fn keys_ordered<T>(s: Seq<(T, (int, Seq<char>))>) -> bool {
    forall|i: int, j: int| 0 <= i < j < s.len() ==> !key_lt(#[trigger] s[j].1, #[trigger] s[i].1)
}

/// `key_lt` is a strict order: irreflexive and transitive.
proof fn lemma_lex_lt_trans(a: Seq<char>, b: Seq<char>, c: Seq<char>)
    requires
        lex_lt(a, b),
        lex_lt(b, c),
    ensures
        lex_lt(a, c),
    decreases a.len(),
{
    if a.len() > 0 && b.len() > 0 && c.len() > 0 && a[0] == b[0] && b[0] == c[0] {
        lemma_lex_lt_trans(a.drop_first(), b.drop_first(), c.drop_first());
    }
}

/// Two texts compare one way, the other way, or are equal.
proof fn lemma_lex_lt_total(a: Seq<char>, b: Seq<char>)
    ensures
        lex_lt(a, b) || lex_lt(b, a) || a == b,
    decreases a.len(),
{
    if a.len() > 0 && b.len() > 0 {
        if a[0] == b[0] {
            lemma_lex_lt_total(a.drop_first(), b.drop_first());
            if a.drop_first() == b.drop_first() {
                assert(a =~= seq![a[0]] + a.drop_first());
                assert(b =~= seq![b[0]] + b.drop_first());
            }
        }
    } else if a.len() == 0 && b.len() == 0 {
        assert(a =~= b);
    }
}

/// No text comes before itself, and of two texts at most one comes first.
pub(crate) proof fn lemma_lex_lt_asym(a: Seq<char>, b: Seq<char>)
    ensures
        lex_lt(a, b) ==> !lex_lt(b, a),
        !lex_lt(a, a),
    decreases a.len(),
{
    if a.len() > 0 && b.len() > 0 && a[0] == b[0] {
        lemma_lex_lt_asym(a.drop_first(), b.drop_first());
    }
    if a.len() > 0 {
        lemma_lex_lt_asym(a.drop_first(), a.drop_first());
    }
}

proof fn lemma_key_lt_trans(a: (int, Seq<char>), b: (int, Seq<char>), c: (int, Seq<char>))
    requires
        key_lt(a, b),
        key_lt(b, c),
    ensures
        key_lt(a, c),
{
    if a.0 == b.0 && b.0 == c.0 {
        lemma_lex_lt_trans(a.1, b.1, c.1);
    }
}

/// Not sorting before is transitive: `!(b < a)` and `!(c < b)` give
/// `!(c < a)`.
proof fn lemma_key_not_lt_trans(a: (int, Seq<char>), b: (int, Seq<char>), c: (int, Seq<char>))
    requires
        !key_lt(b, a),
        !key_lt(c, b),
    ensures
        !key_lt(c, a),
{
    if key_lt(c, a) {
        lemma_lex_lt_total(a.1, b.1);
        lemma_lex_lt_total(b.1, c.1);
        if key_lt(a, b) {
            lemma_key_lt_trans(c, a, b);
        } else if a == b {
        } else {
            assert(key_lt(b, a) || a.0 == b.0);
        }
    }
}

proof fn lemma_insert_keyed_ordered<T>(s: Seq<(T, (int, Seq<char>))>, x: (T, (int, Seq<char>)))
    requires
        keys_ordered(s),
    ensures
        keys_ordered(insert_keyed(s, x)),
        insert_keyed(s, x).len() == s.len() + 1,
        forall|i: int| 0 <= i < insert_keyed(s, x).len() ==> (#[trigger] insert_keyed(s, x)[i] == x || s.contains(insert_keyed(s, x)[i])),
    decreases s.len(),
{
    if s.len() == 0 {
        assert(insert_keyed(s, x) =~= seq![x]);
    } else if !key_lt(x.1, s.last().1) {
        let r = s.push(x);
        assert forall|i: int, j: int| 0 <= i < j < r.len() implies !key_lt(#[trigger] r[j].1, #[trigger] r[i].1) by {
            assert(r[i] == s[i]);
            if j == s.len() {
                if i < s.len() - 1 {
                    assert(!key_lt(s[s.len() - 1].1, s[i].1));
                    lemma_key_not_lt_trans(r[i].1, s.last().1, x.1);
                }
            } else {
                assert(r[j] == s[j]);
                assert(!key_lt(s[j].1, s[i].1));
            }
        }
        assert forall|i: int| 0 <= i < r.len() implies (#[trigger] r[i] == x || s.contains(r[i])) by {
            if i < s.len() {
                assert(s[i] == r[i]);
            }
        }
    } else {
        let t = insert_keyed(s.drop_last(), x);
        lemma_insert_keyed_ordered(s.drop_last(), x);
        let r = t.push(s.last());
        assert forall|i: int, j: int| 0 <= i < j < r.len() implies !key_lt(#[trigger] r[j].1, #[trigger] r[i].1) by {
            assert(r[i] == t[i]);
            if j == t.len() {
                if t[i] == x {
                    lemma_lex_lt_asym(x.1.1, s.last().1.1);
                } else {
                    assert(s.drop_last().contains(t[i]));
                    let k = choose|k: int| 0 <= k < s.drop_last().len() && s.drop_last()[k] == t[i];
                    assert(s[k] == t[i]);
                    assert(!key_lt(s[s.len() - 1].1, s[k].1));
                }
            } else {
                assert(r[j] == t[j]);
                assert(!key_lt(t[j].1, t[i].1));
            }
        }
        assert forall|i: int| 0 <= i < r.len() implies (#[trigger] r[i] == x || s.contains(r[i])) by {
            if i < t.len() {
                if t[i] != x {
                    assert(s.drop_last().contains(t[i]));
                    let k = choose|k: int| 0 <= k < s.drop_last().len() && s.drop_last()[k] == t[i];
                    assert(s[k] == t[i]);
                }
            } else {
                assert(s[s.len() - 1] == r[i]);
            }
        }
    }
}

/// What a stable sort by key gives is in key order and as long as its
/// input.
pub proof fn lemma_sort_keyed_ordered<T>(s: Seq<(T, (int, Seq<char>))>)
    ensures
        keys_ordered(sort_keyed(s)),
        sort_keyed(s).len() == s.len(),
    decreases s.len(),
{
    if s.len() > 0 {
        lemma_sort_keyed_ordered(s.drop_last());
        lemma_insert_keyed_ordered(sort_keyed(s.drop_last()), s.last());
    }
}

/// Inserting by key adds `x` and keeps every entry: each entry of the
/// result is `x` or an entry of `s`.
pub proof fn lemma_insert_keyed_members<T>(s: Seq<(T, (int, Seq<char>))>, x: (T, (int, Seq<char>)), k: int)
    requires
        0 <= k < insert_keyed(s, x).len(),
    ensures
        insert_keyed(s, x).len() == s.len() + 1,
        insert_keyed(s, x)[k] == x || exists|j: int| 0 <= j < s.len() && insert_keyed(s, x)[k] == #[trigger] s[j],
    decreases s.len(),
{
    lemma_insert_keyed_len(s, x);
    if s.len() > 0 && key_lt(x.1, s.last().1) {
        let t = insert_keyed(s.drop_last(), x);
        lemma_insert_keyed_len(s.drop_last(), x);
        if k == t.len() {
            assert(insert_keyed(s, x)[k] == s[s.len() - 1]);
        } else {
            lemma_insert_keyed_members(s.drop_last(), x, k);
            if insert_keyed(s, x)[k] != x {
                let j = choose|j: int| 0 <= j < s.drop_last().len() && t[k] == #[trigger] s.drop_last()[j];
                assert(insert_keyed(s, x)[k] == s[j]);
            }
        }
    } else if s.len() > 0 {
        if k < s.len() {
            assert(insert_keyed(s, x)[k] == s[k]);
        }
    }
}

proof fn lemma_insert_keyed_len<T>(s: Seq<(T, (int, Seq<char>))>, x: (T, (int, Seq<char>)))
    ensures
        insert_keyed(s, x).len() == s.len() + 1,
    decreases s.len(),
{
    if s.len() > 0 && key_lt(x.1, s.last().1) {
        lemma_insert_keyed_len(s.drop_last(), x);
    }
}

/// A stable sort by key only reorders: each entry of the result is an
/// entry of `s`.
pub proof fn lemma_sort_keyed_members<T>(s: Seq<(T, (int, Seq<char>))>, k: int)
    requires
        0 <= k < sort_keyed(s).len(),
    ensures
        exists|j: int| 0 <= j < s.len() && sort_keyed(s)[k] == #[trigger] s[j],
    decreases s.len(),
{
    if s.len() > 0 {
        let p = sort_keyed(s.drop_last());
        lemma_sort_keyed_ordered(s.drop_last());
        lemma_insert_keyed_members(p, s.last(), k);
        if sort_keyed(s)[k] == s.last() {
            assert(sort_keyed(s)[k] == s[s.len() - 1]);
        } else {
            let i = choose|i: int| 0 <= i < p.len() && sort_keyed(s)[k] == #[trigger] p[i];
            lemma_sort_keyed_members(s.drop_last(), i);
            let j = choose|j: int| 0 <= j < s.drop_last().len() && p[i] == #[trigger] s.drop_last()[j];
            assert(sort_keyed(s)[k] == s[j]);
        }
    } else {
        assert(sort_keyed(s).len() == 0);
    }
}

} // verus!
