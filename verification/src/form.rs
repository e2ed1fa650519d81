//! A form: fields laid out in a grid, each field labelled and placed by
//! its index.

use crate::dock::Axis;
use vstd::prelude::*;

verus! {

/// A form holding fields of type `F`. Label sizes and gaps are in pixels,
/// which are floating point, and are kept by the caller.
pub struct Form<F> {
    fields: Vec<F>,
    layout: Axis,
    columns: usize,
}

/// The value of a form.
pub struct FormView<F> {
    pub fields: Seq<F>,
    pub layout: Axis,
    pub columns: nat,
}

impl<F> View for Form<F> {
    type V = FormView<F>;

    closed spec fn view(&self) -> FormView<F> {
        FormView { fields: self.fields@, layout: self.layout, columns: self.columns as nat }
    }
}

impl<F> Form<F> {
    /// An empty form in one column, fields laid out vertically.
    fn new() -> (r: Self)
        ensures
            r@ == (FormView { fields: Seq::<F>::empty(), layout: Axis::Vertical, columns: 1 }),
    {
        Form { fields: Vec::new(), layout: Axis::Vertical, columns: 1 }
    }

    /// An empty form whose labels sit beside their fields.
    pub fn horizontal() -> (r: Self)
        ensures
            r@ == (FormView { fields: Seq::<F>::empty(), layout: Axis::Horizontal, columns: 1 }),
    {
        Self::new().layout(Axis::Horizontal)
    }

    /// An empty form whose labels sit above their fields.
    pub fn vertical() -> (r: Self)
        ensures
            r@ == (FormView { fields: Seq::<F>::empty(), layout: Axis::Vertical, columns: 1 }),
    {
        Self::new().layout(Axis::Vertical)
    }

    /// The form with its labels laid out along `layout`.
    pub fn layout(self, layout: Axis) -> (r: Self)
        ensures
            r@ == (FormView { layout, ..self@ }),
    {
        Form { layout, ..self }
    }

    /// The form with `field` appended.
    pub fn child(self, field: F) -> (r: Self)
        ensures
            r@ == (FormView { fields: self@.fields.push(field), ..self@ }),
    {
        let mut s = self;
        s.fields.push(field);
        s
    }

    /// The form with `fields` appended, in order.
    pub fn children(self, fields: Vec<F>) -> (r: Self)
        ensures
            r@ == (FormView { fields: self@.fields + fields@, ..self@ }),
    {
        let mut s = self;
        let mut more = fields;
        s.fields.append(&mut more);
        s
    }

    /// The form laid out in `columns` columns.
    pub fn columns(self, columns: usize) -> (r: Self)
        ensures
            r@ == (FormView { columns: columns as nat, ..self@ }),
    {
        Form { columns, ..self }
    }

    /// The fields, each with its index in the form, in order.
    pub fn into_indexed_fields(self) -> (r: Vec<(usize, F)>)
        ensures
            r@.len() == self@.fields.len(),
            forall|i: int| 0 <= i < r@.len() ==> #[trigger] r@[i] == (i as usize, self@.fields[i]),
    {
        let mut rest = self.fields;
        let ghost all = rest@;
        let total = rest.len();
        let mut out: Vec<(usize, F)> = Vec::new();
        let mut i: usize = 0;
        while rest.len() > 0
            invariant
                all.len() == total,
                all.len() == i + rest@.len(),
                rest@ == all.skip(i as int),
                out@.len() == i,
                forall|k: int| 0 <= k < i ==> #[trigger] out@[k] == (k as usize, all[k]),
            decreases rest@.len(),
        {
            let ghost before = rest@;
            let f = rest.remove(0);
            assert(f == all[i as int]) by {
                assert(before[0] == all.skip(i as int)[0]);
            }
            assert(rest@ =~= all.skip(i + 1));
            out.push((i, f));
            i = i + 1;
        }
        out
    }
}

/// An empty form with labels above their fields.
pub fn v_form<F>() -> (r: Form<F>)
    ensures
        r@ == (FormView { fields: Seq::<F>::empty(), layout: Axis::Vertical, columns: 1 }),
{
    Form::vertical()
}

/// An empty form with labels beside their fields.
pub fn h_form<F>() -> (r: Form<F>)
    ensures
        r@ == (FormView { fields: Seq::<F>::empty(), layout: Axis::Horizontal, columns: 1 }),
{
    Form::horizontal()
}

} // verus!
