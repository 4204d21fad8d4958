//! The library order of two cursors as a `std::cmp::Ordering`.

use std::cmp::Ordering;

use vstd::prelude::*;

use crate::order::compare_text;
use crate::provider::{cursor_le, cursor_order, ResumeCursor};

verus! {

/// The `Ordering` that an order value (-1, 0 or 1) stands for.
pub open spec fn ordering_from(c: int) -> Ordering {
    if c < 0 {
        Ordering::Less
    } else if c == 0 {
        Ordering::Equal
    } else {
        Ordering::Greater
    }
}

/// An order value below zero means the first comes first (`Less`), zero
/// means neither (`Equal`), above zero means the second comes first
/// (`Greater`).
pub proof fn lemma_ordering_from_sign(c: int)
    ensures
        (ordering_from(c) == Ordering::Less) == (c < 0),
        (ordering_from(c) == Ordering::Equal) == (c == 0),
        (ordering_from(c) == Ordering::Greater) == (c > 0),
{
}

fn ordering_of_i8(c: i8) -> (o: Ordering)
    ensures
        c < 0 ==> o == Ordering::Less,
        c == 0 ==> o == Ordering::Equal,
        c > 0 ==> o == Ordering::Greater,
{
    if c < 0 {
        Ordering::Less
    } else if c == 0 {
        Ordering::Equal
    } else {
        Ordering::Greater
    }
}

impl ResumeCursor {
    /// Orders cursors by date added (oldest first), then by id; cursors without
    /// a date added come last.
    pub fn cmp_order(a: &Self, b: &Self) -> (o: Ordering)
        ensures
            o == ordering_from(cursor_order(a@, b@)),
    {
        match (&a.date_added, &b.date_added) {
            (Some(x), Some(y)) => {
                let by_date = compare_text(x.as_str(), y.as_str());
                if by_date != 0 {
                    ordering_of_i8(by_date)
                } else {
                    ordering_of_i8(compare_text(a.id.as_str(), b.id.as_str()))
                }
            },
            (Some(_), None) => Ordering::Less,
            (None, Some(_)) => Ordering::Greater,
            (None, None) => ordering_of_i8(compare_text(a.id.as_str(), b.id.as_str())),
        }
    }
}

/// `a` comes no later than `b` in the library order.
pub fn comes_no_later(a: &ResumeCursor, b: &ResumeCursor) -> (r: bool)
    ensures
        r == cursor_le(a@, b@),
{
    match ResumeCursor::cmp_order(a, b) {
        Ordering::Greater => false,
        _ => true,
    }
}

/// `a` comes strictly after `b` in the library order.
pub fn comes_after(a: &ResumeCursor, b: &ResumeCursor) -> (r: bool)
    ensures
        r == (cursor_order(a@, b@) == 1),
{
    proof {
        crate::provider::lemma_cursor_order_antisymmetric(a@, b@);
    }
    match ResumeCursor::cmp_order(a, b) {
        Ordering::Greater => true,
        _ => false,
    }
}

} // verus!
