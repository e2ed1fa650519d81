//! What the workspace's explorer does to its tree: opening and closing
//! folders, listing the loaded folders to refresh, applying a fresh
//! listing, following a move, revealing a path, the rows it shows, and
//! answering keys.

use crate::fs_tree::{
    flatten_visible, height, lemma_nodes_view_index, lemma_nodes_view_len, lemma_nodes_view_push,
    lemma_nodes_view_take, lemma_nodes_view_update, listed_nodes, listing_for, listing_of, listings_view,
    merge_loaded_dir, merged_node, node_view, nodes_from_entries, nodes_view, row_view, rows_view, visible, DirEntry,
    NodeView, RowView, TreeNode, VisibleTreeRow,
};
use crate::paths::{
    display_name, moved_path, path_after_move, path_has_prefix, path_starts_with, paths_equal, same_path, shown_name,
};
use crate::text::{chars_of, contains_seq, contains_seq_exec, text_is};
use vstd::prelude::*;

verus! {

/// The value of an optional text.
pub open spec fn opt_text(o: Option<String>) -> Option<Seq<char>> {
    match o {
        Some(s) => Some(s@),
        None => None,
    }
}

/// Toggling the folder at `p`, looking from `s[i]` on: the first node of
/// that path flips its expansion; a folder holding the path is searched
/// first. Gives the new nodes, whether a node was found, and the folder to
/// load when it opened without its children loaded.
pub open spec fn toggled_from(s: Seq<NodeView>, p: Seq<char>, i: int) -> (Seq<NodeView>, bool, Option<Seq<char>>)
    decreases s, s.len() - i,
{
    if i < 0 || i >= s.len() {
        (s, false, None)
    } else if same_path(s[i].path, p) {
        let n = NodeView { expanded: !s[i].expanded, ..s[i] };
        (s.update(i, n), true, if n.expanded && !n.children_loaded { Some(s[i].path) } else { None })
    } else if s[i].is_dir && path_has_prefix(p, s[i].path) {
        proof {
            assert(decreases_to!(s => s[i]));
        }
        let (c, found, load) = toggled_from(s[i].children, p, 0);
        if found {
            (s.update(i, NodeView { children: c, ..s[i] }), true, load)
        } else {
            toggled_from(s, p, i + 1)
        }
    } else {
        toggled_from(s, p, i + 1)
    }
}

/// A node with nothing in it, to hold a place while a node is worked on.
fn placeholder() -> (r: TreeNode)
    ensures
        node_view(r) == (NodeView {
            name: Seq::empty(),
            path: Seq::empty(),
            is_dir: false,
            expanded: false,
            children_loaded: false,
            children: Seq::empty(),
        }),
{
    let r = TreeNode {
        name: String::new(),
        path: String::new(),
        is_dir: false,
        expanded: false,
        children_loaded: false,
        children: Vec::new(),
    };
    assert(r.name@ =~= Seq::<char>::empty());
    assert(r.path@ =~= Seq::<char>::empty());
    assert(nodes_view(r.children@) =~= Seq::<NodeView>::empty());
    r
}

/// A toggle that finds nothing leaves the nodes as they are.
proof fn lemma_toggle_missing(s: Seq<NodeView>, p: Seq<char>, i: int)
    ensures
        !toggled_from(s, p, i).1 ==> toggled_from(s, p, i).0 == s,
    decreases s, s.len() - i,
{
    if 0 <= i < s.len() && !same_path(s[i].path, p) {
        if s[i].is_dir && path_has_prefix(p, s[i].path) {
            assert(decreases_to!(s => s[i]));
            lemma_toggle_missing(s[i].children, p, 0);
        }
        lemma_toggle_missing(s, p, i + 1);
    }
}

fn toggle_in(tree: Vec<TreeNode>, p: &str) -> (r: (Vec<TreeNode>, bool, Option<String>))
    ensures
        (nodes_view(r.0@), r.1, opt_text(r.2)) == toggled_from(nodes_view(tree@), p@, 0),
    decreases tree,
{
    let ghost orig = tree@;
    let ghost ov = nodes_view(orig);
    proof {
        lemma_nodes_view_len(orig);
    }
    let mut nodes = tree;
    let mut i: usize = 0;
    while i < nodes.len()
        invariant
            orig == tree@,
            nodes@.len() == orig.len(),
            nodes_view(nodes@) == ov,
            forall|j: int| i <= j < orig.len() ==> nodes@[j] == orig[j],
            ov == nodes_view(orig),
            ov.len() == orig.len(),
            0 <= i <= orig.len(),
            toggled_from(ov, p@, 0) == toggled_from(ov, p@, i as int),
        decreases orig.len() - i,
    {
        proof {
            lemma_nodes_view_index(orig, i as int);
        }
        if paths_equal(nodes[i].path.as_str(), p) {
            let ghost before = nodes@;
            let mut n = placeholder();
            nodes.set_and_swap(i, &mut n);
            n.expanded = !n.expanded;
            let load = if n.expanded && !n.children_loaded {
                Some(n.path.clone())
            } else {
                None
            };
            proof {
                lemma_nodes_view_update(before, i as int, n);
            }
            nodes.set(i, n);
            assert(nodes@ =~= before.update(i as int, n));
            return (nodes, true, load);
        }
        if nodes[i].is_dir && path_starts_with(p, nodes[i].path.as_str()) {
            let ghost before = nodes@;
            let mut n = placeholder();
            nodes.set_and_swap(i, &mut n);
            let TreeNode { name, path, is_dir, expanded, children_loaded, children } = n;
            assert(decreases_to!(tree => tree@[i as int]));
            let (c, found, load) = toggle_in(children, p);
            let m = TreeNode { name, path, is_dir, expanded, children_loaded, children: c };
            proof {
                lemma_nodes_view_update(before, i as int, m);
                lemma_toggle_missing(ov[i as int].children, p@, 0);
            }
            nodes.set(i, m);
            assert(nodes@ =~= before.update(i as int, m));
            if found {
                return (nodes, true, load);
            }
            assert(node_view(m) == ov[i as int]);
            assert(nodes_view(nodes@) =~= ov);
        }
        i = i + 1;
    }
    proof {
        lemma_toggle_missing(ov, p@, 0);
    }
    (nodes, false, None)
}

/// Opens or closes the folder at `path`. Returns the folder whose children
/// are to be loaded, when it opened without them.
pub fn toggle_dir(nodes: &mut Vec<TreeNode>, path: &str) -> (r: Option<String>)
    ensures
        nodes_view(final(nodes)@) == toggled_from(nodes_view(old(nodes)@), path@, 0).0,
        opt_text(r) == toggled_from(nodes_view(old(nodes)@), path@, 0).2,
{
    let mut tree: Vec<TreeNode> = Vec::new();
    std::mem::swap(nodes, &mut tree);
    let (t, _found, load) = toggle_in(tree, path);
    *nodes = t;
    load
}

/// The loaded folders of a tree, in display order: each folder whose
/// children are loaded, followed by the loaded folders below it.
pub open spec fn loaded_dirs(s: Seq<NodeView>) -> Seq<Seq<char>>
    decreases s,
{
    if s.len() == 0 {
        Seq::empty()
    } else {
        let n = s.last();
        loaded_dirs(s.drop_last()) + if n.is_dir && n.children_loaded {
            seq![n.path] + loaded_dirs(n.children)
        } else {
            Seq::empty()
        }
    }
}

/// Appends the loaded folders of `nodes`, in display order.
pub fn collect_loaded_dirs(nodes: &Vec<TreeNode>, out: &mut Vec<String>)
    ensures
        final(out)@.map_values(|s: String| s@) == old(out)@.map_values(|s: String| s@) + loaded_dirs(
            nodes_view(nodes@),
        ),
    decreases nodes,
{
    let ghost start = out@.map_values(|s: String| s@);
    let mut i: usize = 0;
    proof {
        lemma_nodes_view_len(nodes@);
        assert(nodes@.take(0) =~= Seq::<TreeNode>::empty());
        assert(nodes_view(nodes@.take(0)) =~= Seq::<NodeView>::empty());
    }
    while i < nodes.len()
        invariant
            0 <= i <= nodes@.len(),
            out@.map_values(|s: String| s@) == start + loaded_dirs(nodes_view(nodes@.take(i as int))),
        decreases nodes@.len() - i,
    {
        proof {
            lemma_nodes_view_take(nodes@, i as int);
            lemma_nodes_view_len(nodes@.take(i + 1));
            assert(nodes_view(nodes@.take(i + 1)).drop_last() == nodes_view(nodes@.take(i as int)));
        }
        let n = &nodes[i];
        if n.is_dir && n.children_loaded {
            let ghost before = out@.map_values(|s: String| s@);
            out.push(n.path.clone());
            assert(out@.map_values(|s: String| s@) =~= before.push(n.path@));
            assert(decreases_to!(nodes => nodes@[i as int]));
            collect_loaded_dirs(&n.children, out);
            assert(out@.map_values(|s: String| s@) =~= before + (seq![n.path@] + loaded_dirs(nodes_view(n.children@))));
        }
        i = i + 1;
    }
    assert(nodes@.take(i as int) =~= nodes@);
}

/// The folders a refresh reads again: the root, then every loaded folder.
pub fn refresh_targets(root: &str, tree: &Vec<TreeNode>) -> (r: Vec<String>)
    ensures
        r@.map_values(|s: String| s@) == seq![root@] + loaded_dirs(nodes_view(tree@)),
{
    let mut out: Vec<String> = Vec::new();
    out.push(root.to_string());
    assert(out@.map_values(|s: String| s@) =~= seq![root@]);
    collect_loaded_dirs(tree, &mut out);
    out
}

/// The children of a folder after a fresh listing of it: merged with what
/// was loaded.
pub open spec fn merged(prev: Seq<NodeView>, cur: Seq<NodeView>) -> Seq<NodeView> {
    Seq::new(cur.len(), |k: int| merged_node(prev, cur, k))
}

/// A fresh listing of `dir` applied, looking from `s[i]` on: the first
/// node of that path, searching into folders that hold it, takes it in when
/// it is an expanded folder, and forgets its children when it is a
/// collapsed folder with loaded children. Gives the new nodes and whether
/// a node was found.
pub open spec fn applied_from(
    s: Seq<NodeView>,
    dir: Seq<char>,
    entries: Seq<NodeView>,
    i: int,
) -> (Seq<NodeView>, bool)
    decreases s, s.len() - i,
{
    if i < 0 || i >= s.len() {
        (s, false)
    } else if same_path(s[i].path, dir) {
        let n = s[i];
        let m = if n.is_dir && n.expanded {
            NodeView { children: merged(n.children, entries), children_loaded: true, ..n }
        } else if n.is_dir && n.children_loaded {
            NodeView { children: Seq::empty(), children_loaded: false, ..n }
        } else {
            n
        };
        (s.update(i, m), true)
    } else if s[i].is_dir && path_has_prefix(dir, s[i].path) {
        proof {
            assert(decreases_to!(s => s[i]));
        }
        let (c, done) = applied_from(s[i].children, dir, entries, 0);
        if done {
            (s.update(i, NodeView { children: c, ..s[i] }), true)
        } else {
            applied_from(s, dir, entries, i + 1)
        }
    } else {
        applied_from(s, dir, entries, i + 1)
    }
}

proof fn lemma_apply_missing(s: Seq<NodeView>, dir: Seq<char>, entries: Seq<NodeView>, i: int)
    ensures
        !applied_from(s, dir, entries, i).1 ==> applied_from(s, dir, entries, i).0 == s,
    decreases s, s.len() - i,
{
    if 0 <= i < s.len() && !same_path(s[i].path, dir) {
        if s[i].is_dir && path_has_prefix(dir, s[i].path) {
            assert(decreases_to!(s => s[i]));
            lemma_apply_missing(s[i].children, dir, entries, 0);
        }
        lemma_apply_missing(s, dir, entries, i + 1);
    }
}

fn apply_in(tree: Vec<TreeNode>, dir: &str, entries: Vec<TreeNode>) -> (r: (Vec<TreeNode>, bool, Option<Vec<TreeNode>>))
    ensures
        (nodes_view(r.0@), r.1) == applied_from(nodes_view(tree@), dir@, nodes_view(entries@), 0),
        !r.1 ==> r.2 == Some(entries),
    decreases tree,
{
    let ghost orig = tree@;
    let ghost ov = nodes_view(orig);
    let ghost ev = nodes_view(entries@);
    proof {
        lemma_nodes_view_len(orig);
    }
    let mut nodes = tree;
    let mut fresh = entries;
    let mut i: usize = 0;
    while i < nodes.len()
        invariant
            orig == tree@,
            fresh == entries,
            nodes@.len() == orig.len(),
            nodes_view(nodes@) == ov,
            forall|j: int| i <= j < orig.len() ==> nodes@[j] == orig[j],
            ov == nodes_view(orig),
            ov.len() == orig.len(),
            ev == nodes_view(entries@),
            0 <= i <= orig.len(),
            applied_from(ov, dir@, ev, 0) == applied_from(ov, dir@, ev, i as int),
        decreases orig.len() - i,
    {
        proof {
            lemma_nodes_view_index(orig, i as int);
        }
        if paths_equal(nodes[i].path.as_str(), dir) {
            let ghost before = nodes@;
            let mut n = placeholder();
            nodes.set_and_swap(i, &mut n);
            let TreeNode { name, path, is_dir, expanded, children_loaded, children } = n;
            let m = if is_dir && expanded {
                let c = merge_loaded_dir(dir, children, fresh);
                proof {
                    lemma_nodes_view_len(entries@);
                    assert(nodes_view(c@) =~= merged(nodes_view(children@), ev));
                }
                TreeNode { name, path, is_dir, expanded, children_loaded: true, children: c }
            } else if is_dir && children_loaded {
                let m = TreeNode { name, path, is_dir, expanded, children_loaded: false, children: Vec::new() };
                assert(nodes_view(m.children@) =~= Seq::<NodeView>::empty());
                m
            } else {
                TreeNode { name, path, is_dir, expanded, children_loaded, children }
            };
            proof {
                lemma_nodes_view_update(before, i as int, m);
            }
            nodes.set(i, m);
            assert(nodes@ =~= before.update(i as int, m));
            return (nodes, true, None);
        }
        if nodes[i].is_dir && path_starts_with(dir, nodes[i].path.as_str()) {
            let ghost before = nodes@;
            let mut n = placeholder();
            nodes.set_and_swap(i, &mut n);
            let TreeNode { name, path, is_dir, expanded, children_loaded, children } = n;
            assert(decreases_to!(tree => tree@[i as int]));
            let (c, done, rest) = apply_in(children, dir, fresh);
            let m = TreeNode { name, path, is_dir, expanded, children_loaded, children: c };
            proof {
                lemma_nodes_view_update(before, i as int, m);
                lemma_apply_missing(ov[i as int].children, dir@, ev, 0);
            }
            nodes.set(i, m);
            assert(nodes@ =~= before.update(i as int, m));
            if done {
                return (nodes, true, None);
            }
            assert(node_view(m) == ov[i as int]);
            assert(nodes_view(nodes@) =~= ov);
            match rest {
                Some(e) => {
                    fresh = e;
                },
                None => {
                    return (nodes, false, None);
                },
            }
        }
        i = i + 1;
    }
    proof {
        lemma_apply_missing(ov, dir@, ev, 0);
    }
    (nodes, false, Some(fresh))
}

/// Applies a fresh listing of `dir` (its nodes, `entries`) to the tree
/// whose root folder is `root`. Returns whether the tree changed place.
pub fn apply_loaded_dir(tree: &mut Vec<TreeNode>, root: &str, dir: &str, entries: Vec<TreeNode>) -> (r: bool)
    ensures
        same_path(dir@, root@) ==> r && nodes_view(final(tree)@) == merged(
            nodes_view(old(tree)@),
            nodes_view(entries@),
        ),
        !same_path(dir@, root@) ==> (nodes_view(final(tree)@), r) == applied_from(
            nodes_view(old(tree)@),
            dir@,
            nodes_view(entries@),
            0,
        ),
{
    let mut nodes: Vec<TreeNode> = Vec::new();
    std::mem::swap(tree, &mut nodes);
    if paths_equal(dir, root) {
        let ghost ev = nodes_view(entries@);
        proof {
            lemma_nodes_view_len(entries@);
        }
        let m = merge_loaded_dir(dir, nodes, entries);
        proof {
            lemma_nodes_view_len(m@);
        }
        *tree = m;
        assert(nodes_view(tree@) =~= merged(nodes_view(old(tree)@), ev));
        return true;
    }
    let (t, done, _rest) = apply_in(nodes, dir, entries);
    *tree = t;
    done
}

/// A node after `source` moved to `destination`: a node whose path moved
/// takes the new path and its name, and so do the nodes below it.
pub open spec fn rewritten(s: Seq<NodeView>, source: Seq<char>, destination: Seq<char>) -> Seq<NodeView>
    decreases s,
{
    if s.len() == 0 {
        Seq::empty()
    } else {
        let n = s.last();
        let m = match moved_path(n.path, source, destination) {
            Some(u) => NodeView {
                path: u,
                name: shown_name(u),
                children: rewritten(n.children, source, destination),
                ..n
            },
            None => n,
        };
        rewritten(s.drop_last(), source, destination).push(m)
    }
}

fn rewrite_in(tree: Vec<TreeNode>, source: &str, destination: &str) -> (r: Vec<TreeNode>)
    ensures
        nodes_view(r@) == rewritten(nodes_view(tree@), source@, destination@),
    decreases tree,
{
    let ghost orig = tree@;
    let total = tree.len();
    let mut rest = tree;
    let mut out: Vec<TreeNode> = Vec::new();
    let mut i: usize = 0;
    proof {
        assert(orig.take(0) =~= Seq::<TreeNode>::empty());
        assert(nodes_view(orig.take(0)) =~= Seq::<NodeView>::empty());
    }
    while rest.len() > 0
        invariant
            orig == tree@,
            orig.len() == total,
            orig.len() == i + rest@.len(),
            rest@ == orig.skip(i as int),
            nodes_view(out@) == rewritten(nodes_view(orig.take(i as int)), source@, destination@),
        decreases rest@.len(),
    {
        let ghost before = rest@;
        let n = rest.remove(0);
        assert(n == orig[i as int]) by {
            assert(before[0] == orig.skip(i as int)[0]);
        }
        assert(rest@ =~= orig.skip(i + 1));
        proof {
            lemma_nodes_view_take(orig, i as int);
            lemma_nodes_view_len(orig.take(i + 1));
            assert(nodes_view(orig.take(i + 1)).drop_last() == nodes_view(orig.take(i as int)));
        }
        let m = match path_after_move(n.path.as_str(), source, destination) {
            Some(u) => {
                let TreeNode { name: _, path: _, is_dir, expanded, children_loaded, children } = n;
                assert(decreases_to!(tree => tree@[i as int]));
                let c = rewrite_in(children, source, destination);
                let name = display_name(u.as_str());
                TreeNode { name, path: u, is_dir, expanded, children_loaded, children: c }
            },
            None => n,
        };
        proof {
            lemma_nodes_view_push(out@, m);
        }
        out.push(m);
        i = i + 1;
    }
    assert(orig.take(i as int) =~= orig);
    out
}

/// Follows a move of `source` to `destination` in the tree: every node at
/// or below the source takes its new path and name.
pub fn rewrite_tree_path(tree: &mut Vec<TreeNode>, source: &str, destination: &str)
    ensures
        nodes_view(final(tree)@) == rewritten(nodes_view(old(tree)@), source@, destination@),
{
    let mut nodes: Vec<TreeNode> = Vec::new();
    std::mem::swap(tree, &mut nodes);
    *tree = rewrite_in(nodes, source, destination);
}

/// What a key pressed in the explorer does. Indices are rows of the
/// explorer; the selected entry is the one to rename or delete.
#[derive(Clone, Copy, Debug, PartialEq, Eq, Structural)]
pub enum ExplorerKey {
    /// The explorer does not take the key.
    Pass,
    /// The explorer takes the key and does nothing with it.
    Consume,
    Copy,
    Cut,
    Paste,
    NewFolder,
    Rename,
    Delete,
    Select(usize),
    Toggle(usize),
    Open(usize),
}

/// The first row, from `i` on, whose path is `p`.
pub open spec fn row_index_from(rows: Seq<RowView>, p: Seq<char>, i: int) -> Option<int>
    decreases rows.len() - i,
{
    if i < 0 || i >= rows.len() {
        None
    } else if same_path(rows[i].path, p) {
        Some(i)
    } else {
        row_index_from(rows, p, i + 1)
    }
}

/// The last row before `j` that lies shallower than `depth`.
pub open spec fn shallower_before(rows: Seq<RowView>, depth: int, j: int) -> Option<int>
    decreases j,
{
    if j <= 0 {
        None
    } else if rows[j - 1].depth < depth {
        Some(j - 1)
    } else {
        shallower_before(rows, depth, j - 1)
    }
}

/// The row the keys move from: the selected one, or the first.
pub open spec fn current_row(rows: Seq<RowView>, selected: Option<Seq<char>>) -> int {
    match selected {
        Some(p) => match row_index_from(rows, p, 0) {
            Some(k) => k,
            None => 0,
        },
        None => 0,
    }
}

/// What a key does in the explorer, given its rows, the selected path,
/// and whether an entry is being named.
pub open spec fn explorer_key_spec(
    key: Seq<char>,
    control: bool,
    shift: bool,
    editing: bool,
    rows: Seq<RowView>,
    selected: Option<Seq<char>>,
) -> ExplorerKey {
    let ci = current_row(rows, selected);
    if editing {
        ExplorerKey::Pass
    } else if control {
        if key == "c"@ && !shift {
            ExplorerKey::Copy
        } else if key == "x"@ && !shift {
            ExplorerKey::Cut
        } else if key == "v"@ && !shift {
            ExplorerKey::Paste
        } else if key == "n"@ && shift {
            ExplorerKey::NewFolder
        } else {
            ExplorerKey::Pass
        }
    } else if rows.len() == 0 {
        ExplorerKey::Pass
    } else if key == "f2"@ {
        if selected is Some { ExplorerKey::Rename } else { ExplorerKey::Pass }
    } else if key == "delete"@ || key == "backspace"@ {
        if selected is Some { ExplorerKey::Delete } else { ExplorerKey::Pass }
    } else if key == "arrowdown"@ || key == "down"@ {
        ExplorerKey::Select(if ci + 1 < rows.len() { (ci + 1) as usize } else { (rows.len() - 1) as usize })
    } else if key == "arrowup"@ || key == "up"@ {
        ExplorerKey::Select(if ci > 0 { (ci - 1) as usize } else { 0 })
    } else if key == "home"@ {
        ExplorerKey::Select(0)
    } else if key == "end"@ {
        ExplorerKey::Select((rows.len() - 1) as usize)
    } else if key == "arrowright"@ || key == "right"@ {
        if rows[ci].is_dir && !rows[ci].expanded {
            ExplorerKey::Toggle(ci as usize)
        } else if rows[ci].is_dir && ci + 1 < rows.len() && rows[ci + 1].depth > rows[ci].depth {
            ExplorerKey::Select((ci + 1) as usize)
        } else {
            ExplorerKey::Consume
        }
    } else if key == "arrowleft"@ || key == "left"@ {
        if rows[ci].is_dir && rows[ci].expanded {
            ExplorerKey::Toggle(ci as usize)
        } else if rows[ci].depth > 0 {
            match shallower_before(rows, rows[ci].depth, ci) {
                Some(k) => ExplorerKey::Select(k as usize),
                None => ExplorerKey::Consume,
            }
        } else {
            ExplorerKey::Consume
        }
    } else if key == "enter"@ {
        if rows[ci].is_dir { ExplorerKey::Toggle(ci as usize) } else { ExplorerKey::Open(ci as usize) }
    } else {
        ExplorerKey::Pass
    }
}

fn row_index(rows: &[VisibleTreeRow], p: &str) -> (r: Option<usize>)
    ensures
        match r {
            Some(k) => row_index_from(rows_view(rows@), p@, 0) == Some(k as int),
            None => row_index_from(rows_view(rows@), p@, 0) is None,
        },
{
    let ghost rv = rows_view(rows@);
    let mut i: usize = 0;
    while i < rows.len()
        invariant
            rv == rows_view(rows@),
            rv.len() == rows@.len(),
            0 <= i <= rows@.len(),
            row_index_from(rv, p@, 0) == row_index_from(rv, p@, i as int),
        decreases rows@.len() - i,
    {
        if paths_equal(rows[i].path.as_str(), p) {
            return Some(i);
        }
        i = i + 1;
    }
    None
}

fn shallower_row(rows: &[VisibleTreeRow], depth: usize, j: usize) -> (r: Option<usize>)
    requires
        j <= rows@.len(),
    ensures
        match r {
            Some(k) => shallower_before(rows_view(rows@), depth as int, j as int) == Some(k as int),
            None => shallower_before(rows_view(rows@), depth as int, j as int) is None,
        },
{
    let ghost rv = rows_view(rows@);
    let mut k: usize = j;
    while k > 0
        invariant
            rv == rows_view(rows@),
            rv.len() == rows@.len(),
            k <= j <= rows@.len(),
            shallower_before(rv, depth as int, j as int) == shallower_before(rv, depth as int, k as int),
        decreases k,
    {
        if rows[k - 1].depth < depth {
            return Some(k - 1);
        }
        k = k - 1;
    }
    None
}

/// Answers a key pressed in the explorer: `key` is the key's name,
/// `control` and `shift` its modifiers, `editing` whether an entry is being
/// named, `rows` the visible rows and `selected` the selected path.
pub fn explorer_key_action(
    key: &str,
    control: bool,
    shift: bool,
    editing: bool,
    rows: &[VisibleTreeRow],
    selected: Option<&str>,
) -> (r: ExplorerKey)
    ensures
        r == explorer_key_spec(key@, control, shift, editing, rows_view(rows@), match selected {
            Some(p) => Some(p@),
            None => None,
        }),
{
    let ghost rv = rows_view(rows@);
    let ghost sel: Option<Seq<char>> = match selected {
        Some(p) => Some(p@),
        None => None,
    };
    if editing {
        return ExplorerKey::Pass;
    }
    if control {
        if text_is(key, "c") && !shift {
            return ExplorerKey::Copy;
        } else if text_is(key, "x") && !shift {
            return ExplorerKey::Cut;
        } else if text_is(key, "v") && !shift {
            return ExplorerKey::Paste;
        } else if text_is(key, "n") && shift {
            return ExplorerKey::NewFolder;
        }
        return ExplorerKey::Pass;
    }
    let n = rows.len();
    if n == 0 {
        return ExplorerKey::Pass;
    }
    if text_is(key, "f2") {
        return if selected.is_some() { ExplorerKey::Rename } else { ExplorerKey::Pass };
    }
    if text_is(key, "delete") || text_is(key, "backspace") {
        return if selected.is_some() { ExplorerKey::Delete } else { ExplorerKey::Pass };
    }
    let ci: usize = match selected {
        Some(p) => match row_index(rows, p) {
            Some(k) => k,
            None => 0,
        },
        None => 0,
    };
    assert(ci as int == current_row(rv, sel));
    proof {
        if sel is Some && row_index_from(rv, sel->0, 0) is Some {
            lemma_row_index_bound(rv, sel->0, 0);
        }
    }
    assert(ci < n);
    let row = &rows[ci];
    assert(row_view(*row) == rv[ci as int]);
    if text_is(key, "arrowdown") || text_is(key, "down") {
        return ExplorerKey::Select(if ci + 1 < n { ci + 1 } else { n - 1 });
    }
    if text_is(key, "arrowup") || text_is(key, "up") {
        return ExplorerKey::Select(if ci > 0 { ci - 1 } else { 0 });
    }
    if text_is(key, "home") {
        return ExplorerKey::Select(0);
    }
    if text_is(key, "end") {
        return ExplorerKey::Select(n - 1);
    }
    if text_is(key, "arrowright") || text_is(key, "right") {
        if row.is_dir && !row.expanded {
            return ExplorerKey::Toggle(ci);
        }
        if row.is_dir && ci + 1 < n {
            assert(row_view(rows@[ci + 1]) == rv[ci + 1]);
            if rows[ci + 1].depth > row.depth {
                return ExplorerKey::Select(ci + 1);
            }
        }
        return ExplorerKey::Consume;
    }
    if text_is(key, "arrowleft") || text_is(key, "left") {
        if row.is_dir && row.expanded {
            return ExplorerKey::Toggle(ci);
        }
        if row.depth > 0 {
            return match shallower_row(rows, row.depth, ci) {
                Some(k) => ExplorerKey::Select(k),
                None => ExplorerKey::Consume,
            };
        }
        return ExplorerKey::Consume;
    }
    if text_is(key, "enter") {
        return if row.is_dir { ExplorerKey::Toggle(ci) } else { ExplorerKey::Open(ci) };
    }
    ExplorerKey::Pass
}

proof fn lemma_row_index_bound(rows: Seq<RowView>, p: Seq<char>, i: int)
    requires
        row_index_from(rows, p, i) is Some,
    ensures
        0 <= row_index_from(rows, p, i)->0 < rows.len(),
    decreases rows.len() - i,
{
    if 0 <= i < rows.len() && !same_path(rows[i].path, p) {
        lemma_row_index_bound(rows, p, i + 1);
    }
}

/// The nodes with the folders on the way to `target` opened, looking from
/// `s[i]` on: the first node whose path `target` starts with is, when it is
/// a folder, expanded, given its children from the snapshot `listings`
/// when they were not loaded, and opened in turn below, unless `stop` is
/// set and it is the target itself. At most `depth` levels are opened.
pub open spec fn opened_towards(
    s: Seq<NodeView>,
    target: Seq<char>,
    listings: Seq<(Seq<char>, Seq<DirEntry>)>,
    stop: bool,
    depth: nat,
    i: int,
) -> Seq<NodeView>
    decreases depth, s.len() - i,
{
    if i < 0 || i >= s.len() {
        s
    } else if path_has_prefix(target, s[i].path) {
        if s[i].is_dir {
            let kids = if s[i].children_loaded {
                s[i].children
            } else {
                listed_nodes(listing_for(listings, s[i].path))
            };
            let opened = if (stop && same_path(target, s[i].path)) || depth == 0 {
                kids
            } else {
                opened_towards(kids, target, listings, stop, (depth - 1) as nat, 0)
            };
            s.update(i, NodeView { expanded: true, children_loaded: true, children: opened, ..s[i] })
        } else {
            s
        }
    } else {
        opened_towards(s, target, listings, stop, depth, i + 1)
    }
}

fn open_towards(
    tree: Vec<TreeNode>,
    target: &str,
    listings: &[(String, Vec<DirEntry>)],
    stop: bool,
    depth: usize,
) -> (r: Vec<TreeNode>)
    ensures
        nodes_view(r@) == opened_towards(nodes_view(tree@), target@, listings_view(listings@), stop, depth as nat, 0),
    decreases depth,
{
    let ghost ov = nodes_view(tree@);
    let ghost lv = listings_view(listings@);
    proof {
        lemma_nodes_view_len(tree@);
    }
    let mut nodes = tree;
    let mut i: usize = 0;
    while i < nodes.len()
        invariant
            nodes_view(nodes@) == ov,
            ov == nodes_view(tree@),
            ov.len() == nodes@.len(),
            lv == listings_view(listings@),
            0 <= i <= nodes@.len(),
            opened_towards(ov, target@, lv, stop, depth as nat, 0) == opened_towards(ov, target@, lv, stop, depth as nat, i as int),
        decreases nodes@.len() - i,
    {
        proof {
            lemma_nodes_view_index(nodes@, i as int);
        }
        if path_starts_with(target, nodes[i].path.as_str()) {
            if nodes[i].is_dir {
                let ghost before = nodes@;
                let ghost nv = ov[i as int];
                let mut n = placeholder();
                nodes.set_and_swap(i, &mut n);
                assert(node_view(n) == nv);
                let TreeNode { name, path, is_dir, expanded: _, children_loaded, children } = n;
                let kids = if children_loaded {
                    children
                } else {
                    nodes_from_entries(listing_of(listings, path.as_str()))
                };
                let ghost kv = if nv.children_loaded { nv.children } else { listed_nodes(listing_for(lv, nv.path)) };
                assert(nodes_view(kids@) == kv);
                let opened = if (stop && paths_equal(target, path.as_str())) || depth == 0 {
                    kids
                } else {
                    open_towards(kids, target, listings, stop, depth - 1)
                };
                assert(nodes_view(opened@) == if (stop && same_path(target@, nv.path)) || depth == 0 {
                    kv
                } else {
                    opened_towards(kv, target@, lv, stop, (depth - 1) as nat, 0)
                });
                let m = TreeNode { name, path, is_dir, expanded: true, children_loaded: true, children: opened };
                proof {
                    lemma_nodes_view_update(before, i as int, m);
                }
                nodes.set(i, m);
                assert(nodes@ =~= before.update(i as int, m));
                assert(node_view(m) == NodeView { expanded: true, children_loaded: true, children: nodes_view(opened@), ..nv });
            }
            return nodes;
        }
        i = i + 1;
    }
    nodes
}

/// How many levels below the first a walk towards `target` may open: as
/// many as the target has characters, since each folder on the way has a
/// longer path than the one holding it.
pub open spec fn reveal_depth(target: Seq<char>) -> nat {
    target.len()
}

/// Shows `target` in the tree of the workspace folder `root`: the folders
/// on the way to it are opened and loaded (from the snapshot `listings`),
/// the target itself too when it is a folder. A path outside the
/// workspace changes nothing.
pub fn reveal_tree_path(tree: &mut Vec<TreeNode>, root: &str, target: &str, listings: &[(String, Vec<DirEntry>)])
    ensures
        !path_has_prefix(target@, root@) ==> final(tree)@ == old(tree)@,
        path_has_prefix(target@, root@) ==> nodes_view(final(tree)@) == opened_towards(
            nodes_view(old(tree)@),
            target@,
            listings_view(listings@),
            true,
            reveal_depth(target@),
            0,
        ),
{
    if !path_starts_with(target, root) {
        return;
    }
    let depth = chars_of(target).len();
    let mut nodes: Vec<TreeNode> = Vec::new();
    std::mem::swap(tree, &mut nodes);
    *tree = open_towards(nodes, target, listings, true, depth);
}

/// Makes the folder `dir` of the workspace `root` visible in the tree: the
/// folders on the way to it, and it, are opened and loaded (from the
/// snapshot `listings`). The workspace folder itself changes nothing.
pub fn ensure_directory_visible(tree: &mut Vec<TreeNode>, root: &str, dir: &str, listings: &[(String, Vec<DirEntry>)])
    ensures
        same_path(dir@, root@) ==> final(tree)@ == old(tree)@,
        !same_path(dir@, root@) ==> nodes_view(final(tree)@) == opened_towards(
            nodes_view(old(tree)@),
            dir@,
            listings_view(listings@),
            false,
            reveal_depth(dir@),
            0,
        ),
{
    if paths_equal(dir, root) {
        return;
    }
    let depth = chars_of(dir).len();
    let mut nodes: Vec<TreeNode> = Vec::new();
    std::mem::swap(tree, &mut nodes);
    *tree = open_towards(nodes, dir, listings, false, depth);
}

/// The rows the explorer shows: the visible part of the tree when the
/// explorer section is open, none when it is folded.
pub fn explorer_rows(tree: &Vec<TreeNode>, section_expanded: bool) -> (r: Vec<VisibleTreeRow>)
    requires
        height(nodes_view(tree@)) <= usize::MAX,
    ensures
        section_expanded ==> rows_view(r@) == visible(nodes_view(tree@), 0),
        !section_expanded ==> r@.len() == 0,
{
    let mut rows: Vec<VisibleTreeRow> = Vec::new();
    if section_expanded {
        flatten_visible(tree.as_slice(), 0, &mut rows);
        assert(rows_view(Seq::<VisibleTreeRow>::empty()) =~= Seq::<RowView>::empty());
    }
    rows
}

/// Whether a change the file watcher reports is worth a look: not one
/// whose path mentions `target`, `.git` or `.DS_Store`.
pub fn fs_event_relevant(path: &str) -> (r: bool)
    ensures
        r == !(contains_seq(path@, "target"@) || contains_seq(path@, ".git"@) || contains_seq(path@, ".DS_Store"@)),
{
    let p = chars_of(path);
    !(contains_seq_exec(p.as_slice(), chars_of("target").as_slice())
        || contains_seq_exec(p.as_slice(), chars_of(".git").as_slice())
        || contains_seq_exec(p.as_slice(), chars_of(".DS_Store").as_slice()))
}

} // verus!
