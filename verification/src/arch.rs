//! Architecture set-up.
use vstd::prelude::*;

verus! {

/// Nothing to set up on the supported architectures.
pub fn init() {
}

} // verus!
