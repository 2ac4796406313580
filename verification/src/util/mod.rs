//! Error reporting.
use vstd::prelude::*;

pub mod error;

verus! {
} // verus!
