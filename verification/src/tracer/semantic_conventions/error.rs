//! Error attributes.

use vstd::prelude::*;

verus! {

/// Error type/category.
pub const ERROR_TYPE: &'static str = "error.type";

} // verus!
