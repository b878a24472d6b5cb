//! The messages of moq-lite.

pub mod goaway;

use vstd::prelude::*;

verus! {

/// A version of moq-lite.
#[derive(Debug, Clone, Copy, PartialEq, Eq, Structural)]
pub enum Version {
    Lite01,
    Lite02,
    Lite03,
    Lite04,
    Lite05,
}

} // verus!
