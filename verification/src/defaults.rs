//! Values used where a view is given none.

use vstd::prelude::*;

verus! {

/// Gap between two neighbouring children of a stack, before scaling.
pub const DEFAULT_SPACING: i64 = 8;

/// Size of the text of a `Text` view, before scaling.
pub const DEFAULT_TEXT_SIZE: i64 = 20;

} // verus!
