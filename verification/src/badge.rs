//! A badge drawn over an element: a number, a dot or an icon.

use crate::text::{decimal, decimal_string, push_decimal, string_of};
use vstd::prelude::*;

verus! {

/// What a badge shows.
#[derive(Clone, Debug, PartialEq, Eq)]
pub enum BadgeVariant {
    Number,
    Dot,
    /// An icon, by name.
    Icon(String),
}

impl BadgeVariant {
    /// Whether the badge shows an icon.
    pub fn is_icon(&self) -> (r: bool)
        ensures
            r == (*self is Icon),
    {
        match self {
            BadgeVariant::Icon(_) => true,
            _ => false,
        }
    }

    /// Whether the badge shows a number.
    pub fn is_number(&self) -> (r: bool)
        ensures
            r == (*self is Number),
    {
        match self {
            BadgeVariant::Number => true,
            _ => false,
        }
    }
}

/// A badge: what it shows, the count and the largest count shown as is,
/// and its color (`0xRRGGBBAA`) when it is not the theme's red.
pub struct Badge {
    count: usize,
    max: usize,
    variant: BadgeVariant,
    color: Option<u32>,
}

/// The value of a badge.
pub struct BadgeView {
    pub count: nat,
    pub max: nat,
    pub variant: BadgeVariant,
    pub color: Option<u32>,
}

impl View for Badge {
    type V = BadgeView;

    closed spec fn view(&self) -> BadgeView {
        BadgeView { count: self.count as nat, max: self.max as nat, variant: self.variant, color: self.color }
    }
}

/// The text of a number badge: the count, or `max+` when the count is over
/// the maximum.
pub open spec fn count_text(count: nat, max: nat) -> Seq<char> {
    if count > max {
        decimal(max).push('+')
    } else {
        decimal(count)
    }
}

impl Badge {
    /// A number badge with count 0, shown up to 99.
    pub fn new() -> (r: Self)
        ensures
            r@ == (BadgeView { count: 0, max: 99, variant: BadgeVariant::Number, color: None }),
    {
        Badge { count: 0, max: 99, variant: BadgeVariant::Number, color: None }
    }

    /// The badge as a dot.
    pub fn dot(self) -> (r: Self)
        ensures
            r@ == (BadgeView { variant: BadgeVariant::Dot, ..self@ }),
    {
        Badge { variant: BadgeVariant::Dot, ..self }
    }

    /// The badge with count `count`.
    pub fn count(self, count: usize) -> (r: Self)
        ensures
            r@ == (BadgeView { count: count as nat, ..self@ }),
    {
        Badge { count, ..self }
    }

    /// The badge showing the icon named `icon`.
    pub fn icon(self, icon: String) -> (r: Self)
        ensures
            r@ == (BadgeView { variant: BadgeVariant::Icon(icon), ..self@ }),
    {
        Badge { variant: BadgeVariant::Icon(icon), ..self }
    }

    /// The badge showing counts up to `max` as they are.
    pub fn max(self, max: usize) -> (r: Self)
        ensures
            r@ == (BadgeView { max: max as nat, ..self@ }),
    {
        Badge { max, ..self }
    }

    /// The badge in color `color`.
    pub fn color(self, color: u32) -> (r: Self)
        ensures
            r@ == (BadgeView { color: Some(color), ..self@ }),
    {
        Badge { color: Some(color), ..self }
    }

    /// Whether the badge is drawn: a number badge only for a positive count,
    /// a dot or an icon always.
    pub fn is_visible(&self) -> (r: bool)
        ensures
            r == (self@.variant is Number ==> self@.count > 0),
    {
        match self.variant {
            BadgeVariant::Number => self.count > 0,
            _ => true,
        }
    }

    /// The text of a number badge.
    pub fn count_label(&self) -> (r: String)
        ensures
            r@ == count_text(self@.count, self@.max),
    {
        if self.count > self.max {
            let mut cs: Vec<char> = Vec::new();
            push_decimal(&mut cs, self.max as u64);
            cs.push('+');
            string_of(&cs)
        } else {
            decimal_string(self.count)
        }
    }
}

} // verus!
