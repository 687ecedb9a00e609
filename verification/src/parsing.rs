//! The two conversions between a text format and a component tree, as
//! traits, so that code can be written against a format without naming it.

use crate::component::Component;
use vstd::prelude::*;

verus! {

/// A text format that can be parsed into a component tree.
pub trait ComponentParser {
    /// The error that a rejected input is reported with.
    type Err;

    /// Parses `input` into a component tree.
    fn from_string(input: &str) -> Result<Component, Self::Err>;
}

/// A text format that a component tree can be written in.
pub trait ComponentSerializer {
    /// The error that a tree which cannot be written is reported with.
    type Err;

    /// Writes `component` in the format.
    fn to_string(component: &Component) -> Result<String, Self::Err>;
}

} // verus!
