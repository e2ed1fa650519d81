//! The host's record of the extension components it loaded: each
//! extension id once, with whether the component could be instantiated
//! against a WASI-only linker.

use crate::text::{chars_of, same_chars};
use vstd::prelude::*;

verus! {

/// The loaded components, in the order their ids were first recorded.
pub struct WasmHost {
    components: Vec<(String, bool)>,
}

/// How many of the components instantiated.
pub open spec fn count_instantiated(s: Seq<(Seq<char>, bool)>) -> nat
    decreases s.len(),
{
    if s.len() == 0 {
        0
    } else {
        count_instantiated(s.drop_last()) + if s.last().1 { 1nat } else { 0nat }
    }
}

/// No id appears twice.
pub open spec fn distinct_ids(s: Seq<(Seq<char>, bool)>) -> bool {
    forall|i: int, j: int| 0 <= i < j < s.len() ==> s[i].0 != s[j].0
}

/// The record after loading `id`: its entry replaced when it was there,
/// appended otherwise.
pub open spec fn recorded(s: Seq<(Seq<char>, bool)>, id: Seq<char>, instantiated: bool) -> Seq<(Seq<char>, bool)> {
    if exists|i: int| 0 <= i < s.len() && s[i].0 == id {
        let i = choose|i: int| 0 <= i < s.len() && s[i].0 == id;
        s.update(i, (id, instantiated))
    } else {
        s.push((id, instantiated))
    }
}

impl View for WasmHost {
    type V = Seq<(Seq<char>, bool)>;

    closed spec fn view(&self) -> Seq<(Seq<char>, bool)> {
        self.components@.map_values(|p: (String, bool)| (p.0@, p.1))
    }
}

impl WasmHost {
    /// The record is well formed: no id twice.
    pub open spec fn wf(&self) -> bool {
        distinct_ids(self@)
    }

    /// A host with nothing loaded.
    pub fn new() -> (r: Self)
        ensures
            r@ == Seq::<(Seq<char>, bool)>::empty(),
            r.wf(),
    {
        let r = WasmHost { components: Vec::new() };
        assert(r@ =~= Seq::<(Seq<char>, bool)>::empty());
        r
    }

    /// Records the component of extension `id`.
    pub fn record(&mut self, id: String, instantiated: bool)
        requires
            old(self).wf(),
        ensures
            final(self).wf(),
            final(self)@ == recorded(old(self)@, id@, instantiated),
    {
        let ghost s = self@;
        let key = chars_of(id.as_str());
        let mut i: usize = 0;
        while i < self.components.len()
            invariant
                0 <= i <= self.components@.len(),
                s == self@,
                s == old(self)@,
                s.len() == self.components@.len(),
                distinct_ids(s),
                key@ == id@,
                forall|j: int| 0 <= j < i ==> s[j].0 != id@,
            decreases self.components@.len() - i,
        {
            assert(s[i as int].0 == self.components@[i as int].0@);
            if same_chars(chars_of(self.components[i].0.as_str()).as_slice(), key.as_slice()) {
                proof {
                    assert(s[i as int].0 == id@);
                    assert forall|j: int| 0 <= j < s.len() && s[j].0 == id@ implies j == i by {
                        if j < i {
                            assert(s[j].0 != id@);
                        } else if j > i {
                            assert(s[i as int].0 != s[j].0);
                        }
                    }
                }
                self.components.set(i, (id, instantiated));
                proof {
                    assert(exists|j: int| 0 <= j < s.len() && s[j].0 == id@);
                    let c = choose|j: int| 0 <= j < s.len() && s[j].0 == id@;
                    assert(c == i);
                    assert(recorded(s, id@, instantiated) == s.update(i as int, (id@, instantiated)));
                    assert(self@ =~= s.update(i as int, (id@, instantiated)));
                    assert forall|a: int, b: int| 0 <= a < b < self@.len() implies self@[a].0 != self@[b].0 by {
                        if a != i && b != i {
                            assert(s[a].0 != s[b].0);
                        }
                    }
                }
                return;
            }
            i = i + 1;
        }
        let ghost idv = id@;
        self.components.push((id, instantiated));
        assert(self@ =~= s.push((idv, instantiated)));
    }

    /// How many components are loaded.
    pub fn loaded_count(&self) -> (r: usize)
        ensures
            r == self@.len(),
    {
        self.components.len()
    }

    /// How many loaded components instantiated against the WASI-only
    /// linker.
    pub fn instantiated_count(&self) -> (r: usize)
        ensures
            r == count_instantiated(self@),
    {
        let ghost s = self@;
        let mut n: usize = 0;
        let mut i: usize = 0;
        while i < self.components.len()
            invariant
                0 <= i <= self.components@.len(),
                s == self@,
                s.len() == self.components@.len(),
                n == count_instantiated(s.take(i as int)),
                n <= i,
            decreases self.components@.len() - i,
        {
            assert(s.take(i + 1).drop_last() =~= s.take(i as int));
            assert(s[i as int].1 == self.components@[i as int].1);
            if self.components[i].1 {
                n = n + 1;
            }
            i = i + 1;
        }
        assert(s.take(i as int) =~= s);
        n
    }
}

} // verus!
