//! The size of a grid.

use vstd::prelude::*;

verus! {

/// Number of rows and of columns of a grid.
#[derive(Debug, Clone, Copy, PartialEq, Eq, Structural)]
pub struct Dimensions {
    pub height: usize,
    pub width: usize,
}

} // verus!
