use vstd::prelude::*;

verus! {

/// Locates a sample coordinate on a lattice sampled every `interval` steps:
/// the lattice cell it falls in, and how far into the cell it lies.
/// Trilinear sampling reads the cell's corners `cell` and `cell + 1` along
/// each axis and weighs them by `offset / interval`.
pub fn lattice_cell(coord: usize, interval: usize) -> (located: (usize, usize))
    requires
        interval > 0,
    ensures
        located.0 == coord / interval,
        located.1 == coord % interval,
        located.0 * interval + located.1 == coord,
        located.1 < interval,
{
    let cell = coord / interval;
    let offset = coord % interval;
    assert(cell * interval + offset == coord) by (nonlinear_arith)
        requires
            interval > 0,
            cell == coord / interval,
            offset == coord % interval,
    ;
    (cell, offset)
}

} // verus!
