pub mod attributes;
pub mod complex;
pub mod fixed;
pub mod laws;
pub mod liquidity;
pub mod loan;

use vstd::prelude::*;

verus! {

/// Row index (Fourier grid point) of a flat matrix entry, for a
/// row-major matrix with `num_w` columns.
pub open spec fn spec_u_index(index: int, num_w: int) -> int {
    index / num_w
}

/// Column index (systemic factor) of a flat matrix entry.
pub open spec fn spec_w_index(index: int, num_w: int) -> int {
    index % num_w
}

/// The Fourier-grid row that a flat index belongs to.
pub fn u_index_of(index: usize, num_w: usize) -> (r: usize)
    requires
        num_w > 0,
    ensures
        r == spec_u_index(index as int, num_w as int),
{
    index / num_w
}

/// The systemic-factor column that a flat index belongs to.
pub fn w_index_of(index: usize, num_w: usize) -> (r: usize)
    requires
        num_w > 0,
    ensures
        r == spec_w_index(index as int, num_w as int),
{
    index % num_w
}

} // verus!
