//! The order of handles: that of their numbers.

use core::cmp::Ordering;
use vstd::prelude::*;
use vstd::std_specs::cmp::PartialOrdSpec;
use crate::handle::{WlcOutput, WlcView};

verus! {

/// How two numbers stand to each other.
pub open spec fn number_order(a: usize, b: usize) -> Ordering {
    if a < b {
        Ordering::Less
    } else if a > b {
        Ordering::Greater
    } else {
        Ordering::Equal
    }
}

impl PartialOrd for WlcView {
    fn partial_cmp(&self, other: &WlcView) -> (r: Option<Ordering>) {
        if self.0 < other.0 {
            Some(Ordering::Less)
        } else if self.0 > other.0 {
            Some(Ordering::Greater)
        } else {
            Some(Ordering::Equal)
        }
    }
}

impl vstd::std_specs::cmp::PartialOrdSpecImpl for WlcView {
    open spec fn obeys_partial_cmp_spec() -> bool {
        true
    }

    open spec fn partial_cmp_spec(&self, other: &WlcView) -> Option<Ordering> {
        Some(number_order(self.number(), other.number()))
    }
}

impl PartialOrd for WlcOutput {
    fn partial_cmp(&self, other: &WlcOutput) -> (r: Option<Ordering>) {
        if self.0 < other.0 {
            Some(Ordering::Less)
        } else if self.0 > other.0 {
            Some(Ordering::Greater)
        } else {
            Some(Ordering::Equal)
        }
    }
}

impl vstd::std_specs::cmp::PartialOrdSpecImpl for WlcOutput {
    open spec fn obeys_partial_cmp_spec() -> bool {
        true
    }

    open spec fn partial_cmp_spec(&self, other: &WlcOutput) -> Option<Ordering> {
        Some(number_order(self.number(), other.number()))
    }
}

/// Whether `a` comes before `b`.
pub fn view_precedes(a: WlcView, b: WlcView) -> (r: bool)
    ensures
        r == (a.number() < b.number()),
{
    a < b
}

/// Whether `a` comes before `b`.
pub fn output_precedes(a: WlcOutput, b: WlcOutput) -> (r: bool)
    ensures
        r == (a.number() < b.number()),
{
    a < b
}

/// Two handles are equal exactly when their numbers are, and one comes
/// before the other exactly when its number is the smaller.
pub proof fn handles_compare_as_their_numbers(a: WlcView, b: WlcView, c: WlcOutput, d: WlcOutput)
    ensures
        (a == b) <==> (a.number() == b.number()),
        (c == d) <==> (c.number() == d.number()),
        a.partial_cmp_spec(&b) == Some(number_order(a.number(), b.number())),
        c.partial_cmp_spec(&d) == Some(number_order(c.number(), d.number())),
        (a.partial_cmp_spec(&b) == Some(Ordering::Less)) <==> a.number() < b.number(),
        (c.partial_cmp_spec(&d) == Some(Ordering::Less)) <==> c.number() < d.number(),
        (a.partial_cmp_spec(&b) == Some(Ordering::Equal)) <==> a == b,
        (c.partial_cmp_spec(&d) == Some(Ordering::Equal)) <==> c == d,
{
}

} // verus!
