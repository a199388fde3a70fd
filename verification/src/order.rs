//! The four-state outcome of comparing values that are only partially ordered.

use std::cmp::Ordering;
use vstd::prelude::*;

verus! {

/// How one value relates to another under a partial order.
#[derive(Debug, Clone, Copy, PartialEq, Eq, Structural)]
pub enum Comparison {
    /// The left value comes first.
    Less,
    /// Both values are the same.
    Equal,
    /// The left value comes last.
    Greater,
    /// No order relation holds between the two values.
    Incomparable,
}

impl Comparison {
    /// The comparison seen from the other side.
    pub open spec fn reversed(self) -> Comparison {
        match self {
            Comparison::Less => Comparison::Greater,
            Comparison::Greater => Comparison::Less,
            Comparison::Equal => Comparison::Equal,
            Comparison::Incomparable => Comparison::Incomparable,
        }
    }

    /// The outcome in the vocabulary of the standard library, where
    /// `None` stands for incomparable values.
    pub open spec fn ordering(self) -> Option<Ordering> {
        match self {
            Comparison::Less => Some(Ordering::Less),
            Comparison::Equal => Some(Ordering::Equal),
            Comparison::Greater => Some(Ordering::Greater),
            Comparison::Incomparable => None,
        }
    }

    /// Converts to the standard library's optional ordering.
    pub fn to_ordering(self) -> (o: Option<Ordering>)
        ensures
            o == self.ordering(),
    {
        match self {
            Comparison::Less => Some(Ordering::Less),
            Comparison::Equal => Some(Ordering::Equal),
            Comparison::Greater => Some(Ordering::Greater),
            Comparison::Incomparable => None,
        }
    }

    /// Whether an order relation holds at all.
    pub fn is_comparable(self) -> (b: bool)
        ensures
            b == (self != Comparison::Incomparable),
    {
        match self {
            Comparison::Incomparable => false,
            _ => true,
        }
    }
}

} // verus!
