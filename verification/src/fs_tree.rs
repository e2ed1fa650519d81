//! The file-explorer tree: nodes, the rows that are visible, collapsing,
//! merging a fresh directory listing into the loaded tree, and the rules for
//! new entry names.

use crate::paths::{paths_equal, same_path, path_is_absolute, is_absolute_path};
use crate::order::{items_of, keyed_view, lemma_sort_keyed_members, sort_keyed, stable_sort_by_key, SortKey};
use crate::text::{chars_of, trim_chars, trim, contains_char, is_control, is_ctrl, string_of, same_chars, to_lowercase, unicode_lower};
use vstd::prelude::*;

verus! {

/// One entry of the explorer tree.
#[derive(Debug)]
pub struct TreeNode {
    pub name: String,
    pub path: String,
    pub is_dir: bool,
    pub expanded: bool,
    pub children_loaded: bool,
    pub children: Vec<TreeNode>,
}

/// One visible row of the explorer, at its nesting depth.
#[derive(Clone, Debug)]
pub struct VisibleTreeRow {
    pub name: String,
    pub path: String,
    pub is_dir: bool,
    pub expanded: bool,
    pub depth: usize,
}

/// The mathematical value of a [`TreeNode`].
pub struct NodeView {
    pub name: Seq<char>,
    pub path: Seq<char>,
    pub is_dir: bool,
    pub expanded: bool,
    pub children_loaded: bool,
    pub children: Seq<NodeView>,
}

/// The mathematical value of a [`VisibleTreeRow`].
pub struct RowView {
    pub name: Seq<char>,
    pub path: Seq<char>,
    pub is_dir: bool,
    pub expanded: bool,
    pub depth: int,
}

/// The value of a node.
pub open spec fn node_view(n: TreeNode) -> NodeView
    decreases n,
{
    NodeView {
        name: n.name@,
        path: n.path@,
        is_dir: n.is_dir,
        expanded: n.expanded,
        children_loaded: n.children_loaded,
        children: nodes_view(n.children@),
    }
}

/// The values of a sequence of nodes.
pub open spec fn nodes_view(s: Seq<TreeNode>) -> Seq<NodeView>
    decreases s,
{
    if s.len() == 0 {
        Seq::empty()
    } else {
        nodes_view(s.drop_last()).push(node_view(s.last()))
    }
}

/// The value of a row.
pub open spec fn row_view(r: VisibleTreeRow) -> RowView {
    RowView { name: r.name@, path: r.path@, is_dir: r.is_dir, expanded: r.expanded, depth: r.depth as int }
}

/// The values of a sequence of rows.
pub open spec fn rows_view(s: Seq<VisibleTreeRow>) -> Seq<RowView> {
    s.map_values(|r: VisibleTreeRow| row_view(r))
}

/// How deep the tree goes below the given nodes.
pub open spec fn height(s: Seq<NodeView>) -> nat
    decreases s,
{
    if s.len() == 0 {
        0
    } else {
        let h = height(s.drop_last());
        let c = 1 + height(s.last().children);
        if h >= c {
            h
        } else {
            c
        }
    }
}

/// The rows shown for `s` at `depth`: each node, followed by the rows of its
/// children when it is an expanded directory.
pub open spec fn visible(s: Seq<NodeView>, depth: int) -> Seq<RowView>
    decreases s,
{
    if s.len() == 0 {
        Seq::empty()
    } else {
        let n = s.last();
        let row = RowView { name: n.name, path: n.path, is_dir: n.is_dir, expanded: n.expanded, depth };
        visible(s.drop_last(), depth) + seq![row] + if n.is_dir && n.expanded {
            visible(n.children, depth + 1)
        } else {
            Seq::empty()
        }
    }
}

/// The tree with every node collapsed, at every level.
pub open spec fn collapsed(s: Seq<NodeView>) -> Seq<NodeView>
    decreases s,
{
    if s.len() == 0 {
        Seq::empty()
    } else {
        let n = s.last();
        collapsed(s.drop_last()).push(NodeView { expanded: false, children: collapsed(n.children), ..n })
    }
}

/// Index of the last node of `prev` with the same path as `p`, or -1.
pub open spec fn last_with_path(prev: Seq<NodeView>, p: Seq<char>) -> int
    decreases prev.len(),
{
    if prev.len() == 0 {
        -1
    } else if same_path(prev.last().path, p) {
        prev.len() - 1
    } else {
        last_with_path(prev.drop_last(), p)
    }
}

/// The previous node matched by `cur[i]`: the last previous node with its
/// path, unless an earlier current node already took that one.
pub open spec fn match_for(prev: Seq<NodeView>, cur: Seq<NodeView>, i: int) -> int {
    let k = last_with_path(prev, cur[i].path);
    if k >= 0 && !(exists|j: int| 0 <= j < i && #[trigger] last_with_path(prev, cur[j].path) == k) {
        k
    } else {
        -1
    }
}

/// `cur[i]` after the merge: a directory takes the expansion state and the
/// loaded children of its match.
pub open spec fn merged_node(prev: Seq<NodeView>, cur: Seq<NodeView>, i: int) -> NodeView {
    let k = match_for(prev, cur, i);
    if k >= 0 && cur[i].is_dir {
        NodeView {
            expanded: prev[k].expanded,
            children_loaded: prev[k].children_loaded,
            children: prev[k].children,
            ..cur[i]
        }
    } else {
        cur[i]
    }
}

pub(crate) proof fn lemma_nodes_view_len(s: Seq<TreeNode>)
    ensures
        nodes_view(s).len() == s.len(),
    decreases s.len(),
{
    if s.len() > 0 {
        lemma_nodes_view_len(s.drop_last());
    }
}

pub(crate) proof fn lemma_nodes_view_index(s: Seq<TreeNode>, i: int)
    requires
        0 <= i < s.len(),
    ensures
        nodes_view(s).len() == s.len(),
        nodes_view(s)[i] == node_view(s[i]),
    decreases s.len(),
{
    lemma_nodes_view_len(s);
    if i < s.len() - 1 {
        lemma_nodes_view_index(s.drop_last(), i);
    }
}

pub(crate) proof fn lemma_nodes_view_push(s: Seq<TreeNode>, n: TreeNode)
    ensures
        nodes_view(s.push(n)) == nodes_view(s).push(node_view(n)),
{
    assert(s.push(n).drop_last() =~= s);
}

/// The view of a sequence with one node replaced.
pub(crate) proof fn lemma_nodes_view_update(s: Seq<TreeNode>, i: int, n: TreeNode)
    requires
        0 <= i < s.len(),
    ensures
        nodes_view(s.update(i, n)) == nodes_view(s).update(i, node_view(n)),
{
    let t = s.update(i, n);
    lemma_nodes_view_len(s);
    lemma_nodes_view_len(t);
    assert forall|j: int| 0 <= j < s.len() implies nodes_view(t)[j] == nodes_view(s).update(i, node_view(n))[j] by {
        lemma_nodes_view_index(t, j);
        lemma_nodes_view_index(s, j);
    }
    assert(nodes_view(t) =~= nodes_view(s).update(i, node_view(n)));
}

pub(crate) proof fn lemma_nodes_view_take(s: Seq<TreeNode>, i: int)
    requires
        0 <= i < s.len(),
    ensures
        nodes_view(s.take(i + 1)) == nodes_view(s.take(i)).push(node_view(s[i])),
{
    assert(s.take(i + 1).drop_last() =~= s.take(i));
}

proof fn lemma_height_take(s: Seq<NodeView>, i: int)
    requires
        0 <= i < s.len(),
    ensures
        height(s.take(i)) <= height(s),
        1 + height(s[i].children) <= height(s),
    decreases s.len(),
{
    if i < s.len() - 1 {
        assert(s.drop_last().take(i) =~= s.take(i));
        lemma_height_take(s.drop_last(), i);
        assert(s.drop_last()[i] == s[i]);
    } else {
        assert(s.drop_last() =~= s.take(i));
    }
}

proof fn lemma_last_with_path_bounds(prev: Seq<NodeView>, p: Seq<char>)
    ensures
        -1 <= last_with_path(prev, p) < prev.len(),
    decreases prev.len(),
{
    if prev.len() > 0 {
        lemma_last_with_path_bounds(prev.drop_last(), p);
    }
}

/// After collapsing, exactly the top-level nodes are visible, one row each,
/// in order, at the starting depth.
pub proof fn lemma_collapsed_shows_top_level(s: Seq<NodeView>, depth: int)
    ensures
        visible(collapsed(s), depth) == s.map_values(
            |n: NodeView| RowView { name: n.name, path: n.path, is_dir: n.is_dir, expanded: false, depth },
        ),
    decreases s.len(),
{
    if s.len() > 0 {
        lemma_collapsed_shows_top_level(s.drop_last(), depth);
        let c = collapsed(s);
        assert(c.drop_last() =~= collapsed(s.drop_last()));
        assert(s.map_values(
            |n: NodeView| RowView { name: n.name, path: n.path, is_dir: n.is_dir, expanded: false, depth },
        ) =~= s.drop_last().map_values(
            |n: NodeView| RowView { name: n.name, path: n.path, is_dir: n.is_dir, expanded: false, depth },
        ).push(RowView { name: s.last().name, path: s.last().path, is_dir: s.last().is_dir, expanded: false, depth }));
        assert(visible(c, depth) =~= visible(c.drop_last(), depth) + seq![RowView { name: s.last().name, path: s.last().path, is_dir: s.last().is_dir, expanded: false, depth }] + Seq::<RowView>::empty());
    } else {
        assert(s.map_values(
            |n: NodeView| RowView { name: n.name, path: n.path, is_dir: n.is_dir, expanded: false, depth },
        ) =~= Seq::<RowView>::empty());
    }
}

/// A verified copy of a node and everything below it.
pub(crate) fn copy_node(n: &TreeNode) -> (r: TreeNode)
    ensures
        node_view(r) == node_view(*n),
    decreases n,
{
    let children = copy_nodes(&n.children);
    TreeNode {
        name: n.name.clone(),
        path: n.path.clone(),
        is_dir: n.is_dir,
        expanded: n.expanded,
        children_loaded: n.children_loaded,
        children,
    }
}

/// A verified copy of a sequence of nodes.
pub(crate) fn copy_nodes(s: &Vec<TreeNode>) -> (r: Vec<TreeNode>)
    ensures
        nodes_view(r@) == nodes_view(s@),
    decreases s,
{
    let mut out: Vec<TreeNode> = Vec::new();
    let mut i: usize = 0;
    while i < s.len()
        invariant
            0 <= i <= s@.len(),
            nodes_view(out@) == nodes_view(s@.take(i as int)),
        decreases s@.len() - i,
    {
        assert(decreases_to!(s => s@[i as int]));
        let c = copy_node(&s[i]);
        proof {
            lemma_nodes_view_push(out@, c);
            lemma_nodes_view_take(s@, i as int);
        }
        out.push(c);
        i = i + 1;
    }
    assert(s@.take(s@.len() as int) =~= s@);
    out
}

/// Appends to `out` the visible rows of `nodes` at `depth`: every node, and
/// below each expanded directory the rows of its children one level deeper.
pub fn flatten_visible(nodes: &[TreeNode], depth: usize, out: &mut Vec<VisibleTreeRow>)
    requires
        depth + height(nodes_view(nodes@)) <= usize::MAX,
    ensures
        rows_view(final(out)@) == rows_view(old(out)@) + visible(nodes_view(nodes@), depth as int),
    decreases nodes@,
{
    let ghost base = rows_view(out@);
    let mut i: usize = 0;
    proof {
        lemma_nodes_view_len(nodes@);
        assert(nodes@.take(0) =~= Seq::<TreeNode>::empty());
        assert(base + visible(nodes_view(nodes@.take(0)), depth as int) =~= base);
    }
    while i < nodes.len()
        invariant
            0 <= i <= nodes@.len(),
            depth + height(nodes_view(nodes@)) <= usize::MAX,
            nodes_view(nodes@).len() == nodes@.len(),
            rows_view(out@) == base + visible(nodes_view(nodes@.take(i as int)), depth as int),
        decreases nodes@.len() - i,
    {
        let node = &nodes[i];
        let ghost before = rows_view(out@);
        let row = VisibleTreeRow {
            name: node.name.clone(),
            path: node.path.clone(),
            is_dir: node.is_dir,
            expanded: node.expanded,
            depth,
        };
        out.push(row);
        proof {
            assert(rows_view(out@) =~= before.push(row_view(row)));
            lemma_nodes_view_take(nodes@, i as int);
            lemma_nodes_view_index(nodes@, i as int);
            lemma_height_take(nodes_view(nodes@), i as int);
        }
        if node.is_dir && node.expanded {
            assert(decreases_to!(nodes@ => nodes@[i as int].children@));
            flatten_visible(&node.children, depth + 1, out);
        }
        proof {
            let tv = nodes_view(nodes@.take(i + 1));
            assert(tv.drop_last() == nodes_view(nodes@.take(i as int)));
            assert(tv.last() == node_view(nodes@[i as int]));
            assert(seq![row_view(row)] =~= seq![RowView { name: tv.last().name, path: tv.last().path, is_dir: tv.last().is_dir, expanded: tv.last().expanded, depth: depth as int }]);
            assert(before.push(row_view(row)) =~= before + seq![row_view(row)]);
        }
        i = i + 1;
    }
    assert(nodes@.take(nodes@.len() as int) =~= nodes@);
}

/// Collapses every node of the tree, at every level.
pub fn collapse_all(nodes: &mut Vec<TreeNode>)
    ensures
        nodes_view(final(nodes)@) == collapsed(nodes_view(old(nodes)@)),
    decreases height(nodes_view(old(nodes)@)),
{
    let ghost orig = nodes@;
    let mut out: Vec<TreeNode> = Vec::new();
    let mut i: usize = 0;
    while i < nodes.len()
        invariant
            nodes@ == orig,
            0 <= i <= orig.len(),
            nodes_view(out@) == collapsed(nodes_view(orig.take(i as int))),
        decreases orig.len() - i,
    {
        let mut children = copy_nodes(&nodes[i].children);
        proof {
            lemma_nodes_view_index(orig, i as int);
            lemma_height_take(nodes_view(orig), i as int);
        }
        collapse_all(&mut children);
        let n = TreeNode {
            name: nodes[i].name.clone(),
            path: nodes[i].path.clone(),
            is_dir: nodes[i].is_dir,
            expanded: false,
            children_loaded: nodes[i].children_loaded,
            children,
        };
        proof {
            lemma_nodes_view_push(out@, n);
            lemma_nodes_view_take(orig, i as int);
            lemma_nodes_view_len(orig.take(i + 1));
            assert(nodes_view(orig.take(i + 1)).drop_last() == nodes_view(orig.take(i as int)));
        }
        out.push(n);
        i = i + 1;
    }
    assert(orig.take(orig.len() as int) =~= orig);
    *nodes = out;
}

/// Index of the last node of `prev` whose path equals `p`.
fn find_last_with_path(prev: &Vec<TreeNode>, p: &str) -> (r: Option<usize>)
    ensures
        match r {
            Some(k) => k as int == last_with_path(nodes_view(prev@), p@),
            None => last_with_path(nodes_view(prev@), p@) == -1,
        },
{
    let mut k = prev.len();
    proof {
        lemma_nodes_view_len(prev@);
        assert(nodes_view(prev@.take(prev@.len() as int)) == nodes_view(prev@)) by {
            assert(prev@.take(prev@.len() as int) =~= prev@);
        }
    }
    while k > 0
        invariant
            k <= prev@.len(),
            last_with_path(nodes_view(prev@), p@) == last_with_path(nodes_view(prev@.take(k as int)), p@),
        decreases k,
    {
        proof {
            lemma_nodes_view_take(prev@, k - 1);
            lemma_nodes_view_len(prev@.take(k - 1));
        }
        let ghost tv = nodes_view(prev@.take(k as int));
        proof {
            assert(prev@.take(k as int)[k - 1] == prev@[k - 1]);
            assert(tv.drop_last() == nodes_view(prev@.take(k - 1)));
            assert(tv.last().path == prev@[k - 1].path@);
        }
        if paths_equal(prev[k - 1].path.as_str(), p) {
            return Some(k - 1);
        }
        k = k - 1;
    }
    None
}

/// Merges a fresh listing of a directory (`current`) with what was loaded
/// before (`previous`): a directory that was there before keeps its
/// expansion state and its loaded children.
pub fn merge_loaded_dir(_dir: &str, previous: Vec<TreeNode>, current: Vec<TreeNode>) -> (r: Vec<TreeNode>)
    ensures
        nodes_view(r@) == Seq::new(
            current@.len(),
            |i: int| merged_node(nodes_view(previous@), nodes_view(current@), i),
        ),
{
    let ghost pv = nodes_view(previous@);
    let ghost cv = nodes_view(current@);
    proof {
        lemma_nodes_view_len(previous@);
        lemma_nodes_view_len(current@);
    }
    let mut has: Vec<bool> = Vec::new();
    let mut keys: Vec<usize> = Vec::new();
    let mut out: Vec<TreeNode> = Vec::new();
    let mut i: usize = 0;
    while i < current.len()
        invariant
            0 <= i <= current@.len(),
            pv == nodes_view(previous@),
            cv == nodes_view(current@),
            cv.len() == current@.len(),
            pv.len() == previous@.len(),
            has@.len() == i,
            keys@.len() == i,
            forall|j: int| 0 <= j < i ==> (#[trigger] has@[j] <==> last_with_path(pv, cv[j].path) >= 0),
            forall|j: int| 0 <= j < i && has@[j] ==> #[trigger] keys@[j] as int == last_with_path(pv, cv[j].path),
            nodes_view(out@) == Seq::new(i as nat, |j: int| merged_node(pv, cv, j)),
        decreases current@.len() - i,
    {
        proof {
            lemma_nodes_view_index(current@, i as int);
        }
        let node = &current[i];
        let found = find_last_with_path(&previous, node.path.as_str());
        proof {
            lemma_last_with_path_bounds(pv, node.path@);
        }
        let mut taken = false;
        let mut key: usize = 0;
        let ghost k = last_with_path(pv, cv[i as int].path);
        assert(cv[i as int].path == node.path@);
        match found {
            None => {},
            Some(kk) => {
                key = kk;
                let mut j: usize = 0;
                while j < i
                    invariant
                        0 <= j <= i,
                        i == has@.len(),
                        i == keys@.len(),
                        !taken ==> forall|t: int| 0 <= t < j ==> !(has@[t] && keys@[t] == key),
                        taken ==> exists|t: int| 0 <= t < i && has@[t] && keys@[t] == key,
                    decreases i - j,
                {
                    if has[j] && keys[j] == key {
                        taken = true;
                    }
                    j = j + 1;
                }
                proof {
                    if taken {
                        let t = choose|t: int| 0 <= t < i && has@[t] && keys@[t] == key;
                        assert(last_with_path(pv, cv[t].path) == k);
                    } else {
                        assert forall|t: int| 0 <= t < i implies #[trigger] last_with_path(pv, cv[t].path) != k by {
                            assert(!(has@[t] && keys@[t] == key));
                            if last_with_path(pv, cv[t].path) == k {
                                assert(has@[t]);
                            }
                        }
                    }
                }
            },
        }
        let n = if found.is_some() && !taken && node.is_dir {
            proof {
                lemma_nodes_view_index(previous@, key as int);
            }
            TreeNode {
                name: node.name.clone(),
                path: node.path.clone(),
                is_dir: node.is_dir,
                expanded: previous[key].expanded,
                children_loaded: previous[key].children_loaded,
                children: copy_nodes(&previous[key].children),
            }
        } else {
            copy_node(node)
        };
        proof {
            lemma_nodes_view_push(out@, n);
            assert(node_view(n) == merged_node(pv, cv, i as int));
        }
        out.push(n);
        has.push(found.is_some());
        keys.push(key);
        proof {
            assert(nodes_view(out@) =~= Seq::new((i + 1) as nat, |j: int| merged_node(pv, cv, j)));
        }
        i = i + 1;
    }
    out
}

/// A name a new file or folder may take: after trimming it is not empty,
/// not `.` or `..`, holds no path separator, is not absolute and holds no
/// control character.
pub open spec fn valid_name(name: Seq<char>) -> bool {
    let t = trim(name);
    &&& t.len() > 0
    &&& t != seq!['.']
    &&& t != seq!['.', '.']
    &&& !t.contains('/')
    &&& !t.contains('\\')
    &&& !path_is_absolute(t)
    &&& forall|i: int| 0 <= i < t.len() ==> !(t[i] == '\0' || is_ctrl(#[trigger] t[i]))
}

/// Whether `name` may be used for a new file or folder.
pub fn valid_entry_name(name: &str) -> (r: bool)
    ensures
        r == valid_name(name@),
{
    let all = chars_of(name);
    let t = trim_chars(&all);
    if t.len() == 0 {
        return false;
    }
    if t.len() == 1 && t[0] == '.' {
        assert(t@ =~= seq!['.']);
        return false;
    }
    if t.len() == 2 && t[0] == '.' && t[1] == '.' {
        assert(t@ =~= seq!['.', '.']);
        return false;
    }
    if contains_char(&t, '/') || contains_char(&t, '\\') {
        return false;
    }
    let ts = string_of(&t);
    if is_absolute_path(ts.as_str()) {
        return false;
    }
    let mut i: usize = 0;
    while i < t.len()
        invariant
            t@ == trim(name@),
            0 <= i <= t@.len(),
            forall|j: int| 0 <= j < i ==> !(t@[j] == '\0' || is_ctrl(#[trigger] t@[j])),
        decreases t@.len() - i,
    {
        if t[i] == '\0' || is_control(t[i]) {
            assert(t@[i as int] == '\0' || is_ctrl(t@[i as int]));
            return false;
        }
        i = i + 1;
    }
    true
}

/// One entry of a directory listing.
pub struct DirEntry {
    pub name: String,
    pub path: String,
    pub is_dir: bool,
}

/// Names never shown in the explorer.
pub open spec fn skipped_name(name: Seq<char>) -> bool {
    name == "target"@ || name == "node_modules"@ || name == "dist"@ || name == ".git"@
        || name == ".DS_Store"@ || name == "Thumbs.db"@
}

/// The entries of a listing that are shown, in order.
pub open spec fn shown_entries(s: Seq<DirEntry>) -> Seq<DirEntry>
    decreases s.len(),
{
    if s.len() == 0 {
        Seq::empty()
    } else if skipped_name(s.last().name@) {
        shown_entries(s.drop_last())
    } else {
        shown_entries(s.drop_last()).push(s.last())
    }
}

/// The sort key of an entry: folders first, then by lowercase name.
pub open spec fn entry_key(e: DirEntry) -> (int, Seq<char>) {
    (if e.is_dir { 0int } else { 1int }, unicode_lower(e.name@))
}

/// A fresh, collapsed node for an entry.
pub open spec fn fresh_node(e: DirEntry) -> NodeView {
    NodeView {
        name: e.name@,
        path: e.path@,
        is_dir: e.is_dir,
        expanded: false,
        children_loaded: false,
        children: Seq::empty(),
    }
}

/// The nodes of a directory listing: shown entries only, folders first,
/// then by lowercase name (entries that compare equal keep their order),
/// all collapsed.
pub open spec fn listed_nodes(entries: Seq<DirEntry>) -> Seq<NodeView> {
    items_of(sort_keyed(shown_entries(entries).map_values(|e: DirEntry| (e, entry_key(e))))).map_values(
        |e: DirEntry| fresh_node(e),
    )
}

/// Whether a name is one of those never shown.
fn is_skipped(name: &str) -> (r: bool)
    ensures
        r == skipped_name(name@),
{
    let cs = chars_of(name);
    same_chars(cs.as_slice(), chars_of("target").as_slice())
        || same_chars(cs.as_slice(), chars_of("node_modules").as_slice())
        || same_chars(cs.as_slice(), chars_of("dist").as_slice())
        || same_chars(cs.as_slice(), chars_of(".git").as_slice())
        || same_chars(cs.as_slice(), chars_of(".DS_Store").as_slice())
        || same_chars(cs.as_slice(), chars_of("Thumbs.db").as_slice())
}

/// The explorer nodes for the entries of a directory.
pub fn nodes_from_entries(entries: Vec<DirEntry>) -> (r: Vec<TreeNode>)
    ensures
        nodes_view(r@) == listed_nodes(entries@),
{
    let ghost all = entries@;
    let total = entries.len();
    let mut rest = entries;
    let mut keyed: Vec<(DirEntry, SortKey)> = Vec::new();
    let mut i: usize = 0;
    while rest.len() > 0
        invariant
            all.len() == total,
            all.len() == i + rest@.len(),
            rest@ == all.skip(i as int),
            keyed_view(keyed@) == shown_entries(all.take(i as int)).map_values(|e: DirEntry| (e, entry_key(e))),
        decreases rest@.len(),
    {
        let ghost before = rest@;
        let e = rest.remove(0);
        assert(e == all[i as int]) by {
            assert(before[0] == all.skip(i as int)[0]);
        }
        assert(rest@ =~= all.skip(i + 1));
        assert(all.take(i + 1).drop_last() =~= all.take(i as int));
        if !is_skipped(e.name.as_str()) {
            let lower = to_lowercase(e.name.as_str());
            let key = SortKey { group: if e.is_dir { 0 } else { 1 }, text: chars_of(lower.as_str()) };
            let ghost kb = keyed@;
            keyed.push((e, key));
            proof {
                assert(keyed_view(keyed@) =~= keyed_view(kb).push((e, entry_key(e))));
            }
        }
        i = i + 1;
    }
    assert(all.take(i as int) =~= all);
    let sorted = stable_sort_by_key(keyed);
    let ghost ss = sorted@;
    let count = sorted.len();
    let mut rest2 = sorted;
    let mut out: Vec<TreeNode> = Vec::new();
    let mut j: usize = 0;
    while rest2.len() > 0
        invariant
            ss.len() == count,
            ss.len() == j + rest2@.len(),
            rest2@ == ss.skip(j as int),
            nodes_view(out@) == ss.take(j as int).map_values(|e: DirEntry| fresh_node(e)),
        decreases rest2@.len(),
    {
        let ghost before = rest2@;
        let e = rest2.remove(0);
        assert(e == ss[j as int]) by {
            assert(before[0] == ss.skip(j as int)[0]);
        }
        assert(rest2@ =~= ss.skip(j + 1));
        let n = TreeNode {
            name: e.name,
            path: e.path,
            is_dir: e.is_dir,
            expanded: false,
            children_loaded: false,
            children: Vec::new(),
        };
        proof {
            lemma_nodes_view_push(out@, n);
            assert(nodes_view(n.children@) =~= Seq::<NodeView>::empty());
            assert(ss.take(j + 1).map_values(|e: DirEntry| fresh_node(e)) =~= ss.take(j as int).map_values(
                |e: DirEntry| fresh_node(e),
            ).push(fresh_node(e)));
        }
        out.push(n);
        j = j + 1;
    }
    assert(ss.take(j as int) =~= ss);
    out
}

proof fn lemma_shown_entries_kept(s: Seq<DirEntry>)
    ensures
        forall|i: int| 0 <= i < shown_entries(s).len() ==> !skipped_name(#[trigger] shown_entries(s)[i].name@),
    decreases s.len(),
{
    if s.len() > 0 {
        let p = shown_entries(s.drop_last());
        lemma_shown_entries_kept(s.drop_last());
        if !skipped_name(s.last().name@) {
            assert forall|i: int| 0 <= i < shown_entries(s).len() implies !skipped_name(
                #[trigger] shown_entries(s)[i].name@,
            ) by {
                if i < p.len() {
                    assert(shown_entries(s)[i] == p[i]);
                }
            }
        }
    }
}

/// A directory listing never shows build output, version-control data or
/// system clutter: no node it gives is named `target`, `node_modules`,
/// `dist`, `.git`, `.DS_Store` or `Thumbs.db`.
pub proof fn lemma_listing_hides_clutter(entries: Seq<DirEntry>, k: int)
    requires
        0 <= k < listed_nodes(entries).len(),
    ensures
        ({
            let name = listed_nodes(entries)[k].name;
            &&& name != "target"@
            &&& name != "node_modules"@
            &&& name != "dist"@
            &&& name != ".git"@
            &&& name != ".DS_Store"@
            &&& name != "Thumbs.db"@
        }),
{
    let shown = shown_entries(entries);
    let m = shown.map_values(|e: DirEntry| (e, entry_key(e)));
    lemma_shown_entries_kept(entries);
    lemma_sort_keyed_members(m, k);
    let j = choose|j: int| 0 <= j < m.len() && sort_keyed(m)[k] == #[trigger] m[j];
    assert(listed_nodes(entries)[k].name == sort_keyed(m)[k].0.name@);
    assert(m[j].0 == shown[j]);
    assert(!skipped_name(shown[j].name@));
}

/// Reloads a directory from a fresh listing, keeping the expansion state
/// and the loaded children of the folders that were there before.
pub fn reload_dir_preserving_shallow(dir: &str, previous: Vec<TreeNode>, listing: Vec<DirEntry>) -> (r: Vec<TreeNode>)
    ensures
        nodes_view(r@) == Seq::new(
            listed_nodes(listing@).len(),
            |i: int| merged_node(nodes_view(previous@), listed_nodes(listing@), i),
        ),
{
    let current = nodes_from_entries(listing);
    proof {
        lemma_nodes_view_len(current@);
    }
    merge_loaded_dir(dir, previous, current)
}

/// The views of a snapshot of directory listings.
pub open spec fn listings_view(l: Seq<(String, Vec<DirEntry>)>) -> Seq<(Seq<char>, Seq<DirEntry>)> {
    l.map_values(|p: (String, Vec<DirEntry>)| (p.0@, p.1@))
}

/// The listing of `dir` in a snapshot: the first one taken of the same
/// path, or nothing when the folder was not read.
pub open spec fn listing_for(listings: Seq<(Seq<char>, Seq<DirEntry>)>, dir: Seq<char>) -> Seq<DirEntry>
    decreases listings.len(),
{
    if listings.len() == 0 {
        Seq::empty()
    } else if same_path(listings[0].0, dir) {
        listings[0].1
    } else {
        listing_for(listings.drop_first(), dir)
    }
}

/// The nodes `cur` of a freshly listed folder, reconciled with the nodes
/// `prev` loaded before: a folder that was there before (the last previous
/// node of its path) is reloaded, recursively, when it was expanded, and
/// otherwise keeps what was loaded of it.
pub open spec fn reloaded(
    cur: Seq<NodeView>,
    prev: Seq<NodeView>,
    listings: Seq<(Seq<char>, Seq<DirEntry>)>,
) -> Seq<NodeView>
    decreases prev, cur.len(),
{
    if cur.len() == 0 {
        Seq::empty()
    } else {
        let rest = reloaded(cur.drop_last(), prev, listings);
        let node = cur.last();
        let k = last_with_path(prev, node.path);
        if node.is_dir && 0 <= k && k < prev.len() {
            if prev[k].expanded {
                proof {
                    assert(decreases_to!(prev => prev[k]));
                }
                rest.push(
                    NodeView {
                        expanded: true,
                        children_loaded: true,
                        children: reloaded(listed_nodes(listing_for(listings, node.path)), prev[k].children, listings),
                        ..node
                    },
                )
            } else {
                rest.push(NodeView { children_loaded: prev[k].children_loaded, children: prev[k].children, ..node })
            }
        } else {
            rest.push(node)
        }
    }
}

/// A copy of a directory listing.
fn copy_entries(v: &Vec<DirEntry>) -> (r: Vec<DirEntry>)
    ensures
        r@ == v@,
{
    let mut out: Vec<DirEntry> = Vec::new();
    let mut i: usize = 0;
    while i < v.len()
        invariant
            0 <= i <= v@.len(),
            out@ == v@.take(i as int),
        decreases v@.len() - i,
    {
        let e = DirEntry { name: v[i].name.clone(), path: v[i].path.clone(), is_dir: v[i].is_dir };
        out.push(e);
        assert(v@.take(i + 1) =~= v@.take(i as int).push(v@[i as int]));
        i = i + 1;
    }
    assert(v@.take(i as int) =~= v@);
    out
}

/// The listing of `dir` in the snapshot.
pub(crate) fn listing_of(listings: &[(String, Vec<DirEntry>)], dir: &str) -> (r: Vec<DirEntry>)
    ensures
        r@ == listing_for(listings_view(listings@), dir@),
{
    let ghost lv = listings_view(listings@);
    let mut i: usize = 0;
    assert(lv.skip(0) =~= lv);
    while i < listings.len()
        invariant
            0 <= i <= listings@.len(),
            lv == listings_view(listings@),
            listing_for(lv, dir@) == listing_for(lv.skip(i as int), dir@),
        decreases listings@.len() - i,
    {
        proof {
            assert(lv.skip(i as int)[0] == lv[i as int]);
            assert(lv.skip(i as int).drop_first() =~= lv.skip(i + 1));
        }
        if paths_equal(listings[i].0.as_str(), dir) {
            return copy_entries(&listings[i].1);
        }
        i = i + 1;
    }
    Vec::new()
}

/// Reloads a folder from a snapshot of listings: its fresh listing,
/// reconciled with the nodes loaded before, expanded folders reloaded in
/// turn. The snapshot holds the listing of every folder read for this.
pub fn reload_dir_preserving(dir: &str, prev_nodes: &Vec<TreeNode>, listings: &[(String, Vec<DirEntry>)]) -> (r: Vec<TreeNode>)
    ensures
        nodes_view(r@) == reloaded(
            listed_nodes(listing_for(listings_view(listings@), dir@)),
            nodes_view(prev_nodes@),
            listings_view(listings@),
        ),
    decreases prev_nodes,
{
    let ghost lv = listings_view(listings@);
    let ghost pv = nodes_view(prev_nodes@);
    proof {
        lemma_nodes_view_len(prev_nodes@);
    }
    let listing = listing_of(listings, dir);
    let current = nodes_from_entries(listing);
    let ghost cv = nodes_view(current@);
    proof {
        lemma_nodes_view_len(current@);
    }
    let total = current.len();
    let mut rest = current;
    let ghost all = rest@;
    let mut out: Vec<TreeNode> = Vec::new();
    let mut i: usize = 0;
    while rest.len() > 0
        invariant
            all.len() == total,
            all.len() == i + rest@.len(),
            rest@ == all.skip(i as int),
            cv == nodes_view(all),
            cv.len() == all.len(),
            pv == nodes_view(prev_nodes@),
            pv.len() == prev_nodes@.len(),
            lv == listings_view(listings@),
            nodes_view(out@) == reloaded(cv.take(i as int), pv, lv),
        decreases rest@.len(),
    {
        let ghost before = rest@;
        let node = rest.remove(0);
        assert(node == all[i as int]) by {
            assert(before[0] == all.skip(i as int)[0]);
        }
        assert(rest@ =~= all.skip(i + 1));
        proof {
            lemma_nodes_view_index(all, i as int);
            assert(cv.take(i + 1).drop_last() =~= cv.take(i as int));
            assert(cv.take(i + 1).last() == node_view(node));
        }
        let found = if node.is_dir {
            find_last_with_path(prev_nodes, node.path.as_str())
        } else {
            None
        };
        proof {
            lemma_last_with_path_bounds(pv, node.path@);
        }
        let n = match found {
            Some(k) => {
                proof {
                    lemma_nodes_view_index(prev_nodes@, k as int);
                }
                let p = &prev_nodes[k];
                if p.expanded {
                    assert(decreases_to!(prev_nodes => prev_nodes@[k as int]));
                    let children = reload_dir_preserving(node.path.as_str(), &p.children, listings);
                    TreeNode {
                        name: node.name,
                        path: node.path,
                        is_dir: node.is_dir,
                        expanded: true,
                        children_loaded: true,
                        children,
                    }
                } else {
                    TreeNode {
                        name: node.name,
                        path: node.path,
                        is_dir: node.is_dir,
                        expanded: node.expanded,
                        children_loaded: p.children_loaded,
                        children: copy_nodes(&p.children),
                    }
                }
            },
            None => node,
        };
        proof {
            lemma_nodes_view_push(out@, n);
        }
        out.push(n);
        i = i + 1;
    }
    assert(cv.take(i as int) =~= cv);
    out
}

} // verus!
