use vstd::prelude::*;

verus! {

/// One rotation state of a piece: a 4x4 occupancy mask packed row-major into
/// a `u16`, with bit `4 * row + col` holding the cell at `(row, col)`.
pub type Pattern = u16;

/// The cell of mask `p` at local row `i`, column `j`; cells outside the 4x4
/// bounding box are unoccupied.
pub open spec fn mask_cell(p: Pattern, i: int, j: int) -> bool {
    0 <= i < 4 && 0 <= j < 4 && (p >> (4 * i + j) as u16) & 1u16 == 1u16
}

/// Executable lookup of one cell of a mask.
pub fn mask_at(p: Pattern, i: usize, j: usize) -> (occ: bool)
    requires
        i < 4,
        j < 4,
    ensures
        occ == mask_cell(p, i as int, j as int),
{
    let k: u16 = (4 * i + j) as u16;
    (p >> k) & 1 == 1
}

} // verus!
