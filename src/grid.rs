use vstd::prelude::*;

verus! {

/// The number of grid cells drawn along an axis that `cells` cells span: three more,
/// rounded down to an even number, so that the grid covers the view while it pans.
pub fn grid_cell_count(cells: u32) -> (r: u32)
    requires
        cells + 3 <= u32::MAX,
    ensures
        r == (cells + 3) / 2 * 2,
{
    (cells + 3) / 2 * 2
}

} // verus!
