//! What the proxy does when it is started.
use vstd::prelude::*;

pub mod start;

verus! {
} // verus!
