//! A container whose content children show only while it is open; its
//! other children always show.

use vstd::prelude::*;

verus! {

/// A child of a collapsible container.
pub enum CollapsibleChild<E> {
    /// Always shown.
    Element(E),
    /// Shown only while the container is open.
    Content(E),
}

impl<E> CollapsibleChild<E> {
    /// Whether the child is content, hidden while the container is closed.
    pub fn is_content(&self) -> (r: bool)
        ensures
            r == (*self is Content),
    {
        match self {
            CollapsibleChild::Content(_) => true,
            CollapsibleChild::Element(_) => false,
        }
    }
}

/// A collapsible container, closed at first.
pub struct Collapsible<E> {
    children: Vec<CollapsibleChild<E>>,
    open: bool,
}

/// The value of a collapsible container.
pub struct CollapsibleView<E> {
    pub children: Seq<CollapsibleChild<E>>,
    pub open: bool,
}

impl<E> View for Collapsible<E> {
    type V = CollapsibleView<E>;

    closed spec fn view(&self) -> CollapsibleView<E> {
        CollapsibleView { children: self.children@, open: self.open }
    }
}

/// The element a child holds.
pub open spec fn element_of<E>(c: CollapsibleChild<E>) -> E {
    match c {
        CollapsibleChild::Element(e) => e,
        CollapsibleChild::Content(e) => e,
    }
}

/// The elements shown, in order: every child, but content only when open.
pub open spec fn shown<E>(children: Seq<CollapsibleChild<E>>, open: bool) -> Seq<E>
    decreases children.len(),
{
    if children.len() == 0 {
        Seq::empty()
    } else if children.last() is Content && !open {
        shown(children.drop_last(), open)
    } else {
        shown(children.drop_last(), open).push(element_of(children.last()))
    }
}

impl<E> Collapsible<E> {
    /// An empty, closed container.
    pub fn new() -> (r: Self)
        ensures
            r@.children == Seq::<CollapsibleChild<E>>::empty(),
            !r@.open,
    {
        Collapsible { children: Vec::new(), open: false }
    }

    /// The container, open or closed.
    pub fn open(self, open: bool) -> (r: Self)
        ensures
            r@.children == self@.children,
            r@.open == open,
    {
        Collapsible { open, ..self }
    }

    /// The container with `content` appended as content.
    pub fn content(self, content: E) -> (r: Self)
        ensures
            r@.children == self@.children.push(CollapsibleChild::Content(content)),
            r@.open == self@.open,
    {
        let mut s = self;
        s.children.push(CollapsibleChild::Content(content));
        s
    }

    /// The container with `elements` appended as children that always show.
    pub fn extend(self, elements: Vec<E>) -> (r: Self)
        ensures
            r@.children == self@.children + elements@.map_values(|e: E| CollapsibleChild::Element(e)),
            r@.open == self@.open,
    {
        let mut s = self;
        let ghost base = s.children@;
        let mut rest = elements;
        let ghost all = rest@;
        let mut i: usize = 0;
        let total = rest.len();
        while rest.len() > 0
            invariant
                all.len() == total,
                all.len() == i + rest@.len(),
                rest@ == all.skip(i as int),
                s.children@ == base + all.take(i as int).map_values(|e: E| CollapsibleChild::Element(e)),
                s.open == self.open,
            decreases rest@.len(),
        {
            let ghost before = rest@;
            let e = rest.remove(0);
            assert(e == all[i as int]) by {
                assert(before[0] == all.skip(i as int)[0]);
            }
            assert(rest@ =~= all.skip(i + 1));
            s.children.push(CollapsibleChild::Element(e));
            assert(all.take(i + 1).map_values(|e: E| CollapsibleChild::Element(e)) =~= all.take(i as int).map_values(
                |e: E| CollapsibleChild::Element(e),
            ).push(CollapsibleChild::Element(e)));
            i = i + 1;
        }
        assert(all.take(i as int) =~= all);
        s
    }

    /// The elements drawn, in order.
    pub fn visible_children(self) -> (r: Vec<E>)
        ensures
            r@ == shown(self@.children, self@.open),
    {
        let open = self.open;
        let mut rest = self.children;
        let ghost all = rest@;
        let total = rest.len();
        let mut out: Vec<E> = Vec::new();
        let mut i: usize = 0;
        while rest.len() > 0
            invariant
                all.len() == total,
                all.len() == i + rest@.len(),
                rest@ == all.skip(i as int),
                out@ == shown(all.take(i as int), open),
            decreases rest@.len(),
        {
            let ghost before = rest@;
            let c = rest.remove(0);
            assert(c == all[i as int]) by {
                assert(before[0] == all.skip(i as int)[0]);
            }
            assert(rest@ =~= all.skip(i + 1));
            assert(all.take(i + 1).drop_last() =~= all.take(i as int));
            let hide = c.is_content() && !open;
            if !hide {
                match c {
                    CollapsibleChild::Element(e) => out.push(e),
                    CollapsibleChild::Content(e) => out.push(e),
                }
            }
            i = i + 1;
        }
        assert(all.take(i as int) =~= all);
        out
    }
}

/// An open container shows every child, in order.
pub proof fn lemma_open_shows_all<E>(children: Seq<CollapsibleChild<E>>)
    ensures
        shown(children, true) == children.map_values(|c: CollapsibleChild<E>| element_of(c)),
    decreases children.len(),
{
    if children.len() > 0 {
        lemma_open_shows_all(children.drop_last());
        assert(children.map_values(|c: CollapsibleChild<E>| element_of(c)) =~= children.drop_last().map_values(
            |c: CollapsibleChild<E>| element_of(c),
        ).push(element_of(children.last())));
    } else {
        assert(children.map_values(|c: CollapsibleChild<E>| element_of(c)) =~= Seq::<E>::empty());
    }
}

/// Closing a container hides exactly its content: what shows is the
/// element children, in order.
pub proof fn lemma_closed_shows_elements<E>(children: Seq<CollapsibleChild<E>>)
    ensures
        forall|i: int| 0 <= i < shown(children, false).len() ==> exists|j: int|
            0 <= j < children.len() && children[j] is Element && #[trigger] shown(children, false)[i] == element_of(
                children[j],
            ),
    decreases children.len(),
{
    if children.len() > 0 {
        let rest = children.drop_last();
        lemma_closed_shows_elements(rest);
        assert forall|i: int| 0 <= i < shown(children, false).len() implies exists|j: int|
            0 <= j < children.len() && children[j] is Element && #[trigger] shown(children, false)[i] == element_of(
                children[j],
            ) by {
            if i < shown(rest, false).len() {
                let j = choose|j: int|
                    0 <= j < rest.len() && rest[j] is Element && shown(rest, false)[i] == element_of(rest[j]);
                assert(children[j] == rest[j]);
            } else {
                assert(children[children.len() - 1] == children.last());
            }
        }
    }
}

} // verus!
