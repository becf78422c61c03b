//! Fixed-point prices and quantities: integers scaled by 10^8, compared by
//! their integer values.

use std::cmp::Ordering;
use vstd::prelude::*;
use vstd::std_specs::cmp::{PartialEqSpec, PartialOrdSpec};

verus! {

/// Scale of the fixed-point price representation: 10^8 (8 decimal places).
pub const PRICE_SCALE: u64 = 100_000_000;

/// Scale of the fixed-point quantity representation: 10^8.
pub const QUANTITY_SCALE: u64 = 100_000_000;

/// A price stored as a fixed-point integer (value × `PRICE_SCALE`).
#[derive(Debug, Clone, Copy, Eq, Ord, Hash)]
pub struct Price(u64);

impl View for Price {
    type V = u64;

    closed spec fn view(&self) -> u64 {
        self.0
    }
}

impl Price {
    /// A price from its raw fixed-point value.
    pub fn from_raw(raw: u64) -> (p: Price)
        ensures
            p@ == raw,
    {
        Price(raw)
    }

    /// The raw fixed-point value.
    pub fn raw(self) -> (r: u64)
        ensures
            r == self@,
    {
        self.0
    }
}

/// The three-way comparison of two raw fixed-point values.
pub open spec fn raw_order(a: u64, b: u64) -> Ordering {
    if a < b {
        Ordering::Less
    } else if a == b {
        Ordering::Equal
    } else {
        Ordering::Greater
    }
}

/// Two prices are equal when their raw values are.
impl PartialEq for Price {
    fn eq(&self, other: &Self) -> (r: bool) {
        self.0 == other.0
    }
}

impl vstd::std_specs::cmp::PartialEqSpecImpl for Price {
    open spec fn obeys_eq_spec() -> bool {
        true
    }

    open spec fn eq_spec(&self, other: &Price) -> bool {
        self@ == other@
    }
}

/// Prices are ordered by their raw values.
impl PartialOrd for Price {
    fn partial_cmp(&self, other: &Self) -> (r: Option<Ordering>) {
        if self.0 < other.0 {
            Some(Ordering::Less)
        } else if self.0 == other.0 {
            Some(Ordering::Equal)
        } else {
            Some(Ordering::Greater)
        }
    }
}

impl vstd::std_specs::cmp::PartialOrdSpecImpl for Price {
    open spec fn obeys_partial_cmp_spec() -> bool {
        true
    }

    open spec fn partial_cmp_spec(&self, other: &Price) -> Option<Ordering> {
        Some(raw_order(self@, other@))
    }
}

/// A quantity stored as a fixed-point integer (value × `QUANTITY_SCALE`).
#[derive(Debug, Clone, Copy, Eq, Ord, Hash)]
pub struct Quantity(u64);

impl View for Quantity {
    type V = u64;

    closed spec fn view(&self) -> u64 {
        self.0
    }
}

impl Quantity {
    /// A quantity from its raw fixed-point value.
    pub fn from_raw(raw: u64) -> (q: Quantity)
        ensures
            q@ == raw,
    {
        Quantity(raw)
    }

    /// The raw fixed-point value.
    pub fn raw(self) -> (r: u64)
        ensures
            r == self@,
    {
        self.0
    }
}

/// Two quantities are equal when their raw values are.
impl PartialEq for Quantity {
    fn eq(&self, other: &Self) -> (r: bool) {
        self.0 == other.0
    }
}

impl vstd::std_specs::cmp::PartialEqSpecImpl for Quantity {
    open spec fn obeys_eq_spec() -> bool {
        true
    }

    open spec fn eq_spec(&self, other: &Quantity) -> bool {
        self@ == other@
    }
}

/// Quantities are ordered by their raw values.
impl PartialOrd for Quantity {
    fn partial_cmp(&self, other: &Self) -> (r: Option<Ordering>) {
        if self.0 < other.0 {
            Some(Ordering::Less)
        } else if self.0 == other.0 {
            Some(Ordering::Equal)
        } else {
            Some(Ordering::Greater)
        }
    }
}

impl vstd::std_specs::cmp::PartialOrdSpecImpl for Quantity {
    open spec fn obeys_partial_cmp_spec() -> bool {
        true
    }

    open spec fn partial_cmp_spec(&self, other: &Quantity) -> Option<Ordering> {
        Some(raw_order(self@, other@))
    }
}

/// Price order and equality are exactly those of the raw fixed-point
/// values: `a == b` holds when the raw values are equal, `a < b` when the
/// raw value of `a` is the smaller, and `partial_cmp` gives the integers'
/// three-way comparison.
pub proof fn lemma_price_order(a: Price, b: Price)
    ensures
        a.eq_spec(&b) <==> a@ == b@,
        a.partial_cmp_spec(&b) == Some(raw_order(a@, b@)),
        a.partial_cmp_spec(&b) == Some(Ordering::Less) <==> a@ < b@,
        a.partial_cmp_spec(&b) == Some(Ordering::Equal) <==> a@ == b@,
        a.partial_cmp_spec(&b) == Some(Ordering::Greater) <==> a@ > b@,
{
}

/// Quantity order and equality are exactly those of the raw fixed-point
/// values.
pub proof fn lemma_quantity_order(a: Quantity, b: Quantity)
    ensures
        a.eq_spec(&b) <==> a@ == b@,
        a.partial_cmp_spec(&b) == Some(raw_order(a@, b@)),
        a.partial_cmp_spec(&b) == Some(Ordering::Less) <==> a@ < b@,
        a.partial_cmp_spec(&b) == Some(Ordering::Greater) <==> a@ > b@,
{
}

} // verus!
