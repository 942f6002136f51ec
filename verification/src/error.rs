//! What can go wrong in a run: the errors that end it and the findings that
//! are reported while it goes on.

use vstd::prelude::*;

verus! {

/// An error that ends a run. No buildings are given out with it.
#[derive(Clone, Copy, Debug, PartialEq, Eq, Structural)]
pub enum Error {
    /// Inhabitants were to be distributed, but the buildings hold no flat.
    NoCapacity,
    /// A count is too large for the integers of this machine.
    Overflow,
}

/// The mathematical form of a finding.
pub enum Problem {
    /// A house-number text that is not a list of house numbers.
    MalformedHouseNumber(Seq<char>),
    /// A way that refers to a node of which no coordinate is known.
    UnresolvedGeometry { way: i64, node: i64 },
    /// A `building:levels` value that is not a number.
    NonNumericLevels(Seq<char>),
    /// A `building:flats` value that is not a count.
    NonNumericFlats(Seq<char>),
}

/// A finding about the input that does not end the run: what it concerns is
/// left out or counted as nothing, and the run goes on.
#[derive(Debug, Clone, PartialEq, Eq)]
pub enum Diagnostic {
    /// A house-number text that is not a list of house numbers; it counts as
    /// the empty set.
    MalformedHouseNumber(String),
    /// A way that refers to a node of which no coordinate is known; the way is
    /// left out.
    UnresolvedGeometry { way: i64, node: i64 },
    /// A `building:levels` value that is not a number; the levels change
    /// nothing.
    NonNumericLevels(String),
    /// A `building:flats` value that is not a count; the flats are estimated
    /// as if the tag were absent.
    NonNumericFlats(String),
}

impl View for Diagnostic {
    type V = Problem;

    open spec fn view(&self) -> Problem {
        match self {
            Diagnostic::MalformedHouseNumber(text) => Problem::MalformedHouseNumber(text@),
            Diagnostic::UnresolvedGeometry { way, node } => Problem::UnresolvedGeometry {
                way: *way,
                node: *node,
            },
            Diagnostic::NonNumericLevels(text) => Problem::NonNumericLevels(text@),
            Diagnostic::NonNumericFlats(text) => Problem::NonNumericFlats(text@),
        }
    }
}

impl DeepView for Diagnostic {
    type V = Problem;

    open spec fn deep_view(&self) -> Problem {
        self@
    }
}

} // verus!
