//! Results of the valuation arithmetic: a finite number or no number at all.

use vstd::prelude::*;

verus! {

/// A non-negative monetary result in micro-units.
#[derive(Clone, Copy, Debug, PartialEq, Eq, Structural)]
pub enum Amount {
    Finite(u64),
    Undefined,
}

/// A signed result: a difference of amounts in micro-units, or a rate in
/// millionths of a percent.
#[derive(Clone, Copy, Debug, PartialEq, Eq, Structural)]
pub enum Change {
    Finite(i128),
    Undefined,
}

/// The amount that stands for the exact number `v`: `v` itself where it fits.
pub open spec fn amount_of(v: int) -> Amount {
    if 0 <= v <= u64::MAX {
        Amount::Finite(v as u64)
    } else {
        Amount::Undefined
    }
}

/// The amount that stands for an exact sum, which is absent once one of its
/// terms was undefined.
pub open spec fn amount_of_sum(s: Option<nat>) -> Amount {
    match s {
        Some(v) => amount_of(v as int),
        None => Amount::Undefined,
    }
}

impl Amount {
    /// The sum of two amounts; undefined once either is, or once the sum no
    /// longer fits.
    pub open spec fn plus_spec(self, other: Amount) -> Amount {
        match (self, other) {
            (Amount::Finite(a), Amount::Finite(b)) => amount_of(a + b),
            _ => Amount::Undefined,
        }
    }

    pub fn plus(self, other: Amount) -> (r: Amount)
        ensures
            r == self.plus_spec(other),
    {
        match (self, other) {
            (Amount::Finite(a), Amount::Finite(b)) => {
                if a <= u64::MAX - b {
                    Amount::Finite(a + b)
                } else {
                    Amount::Undefined
                }
            },
            _ => Amount::Undefined,
        }
    }
}

} // verus!
