//! The completed-row clear cascade, at the specification level: what a full
//! row is, what one compaction does to the grid, and the end state reached
//! by compacting repeatedly until no candidate row is full.

use vstd::prelude::*;

verus! {

/// The grid is at least 4x4 and rectangular.
pub open spec fn grid_rect(g: Seq<Seq<bool>>) -> bool {
    &&& 4 <= g.len()
    &&& 4 <= g[0].len()
    &&& forall|i: int| 0 <= i < g.len() ==> (#[trigger] g[i]).len() == g[0].len()
}

/// Row 0, column 0, the last row and the last column are occupied: the
/// frame, which the clear cascade never shifts and merging never unsets.
pub open spec fn grid_framed(g: Seq<Seq<bool>>) -> bool {
    &&& forall|j: int| 0 <= j < g[0].len() ==> #[trigger] g[0][j]
    &&& forall|j: int| 0 <= j < g[g.len() - 1].len() ==> #[trigger] g[g.len() - 1][j]
    &&& forall|i: int| 0 <= i < g.len() ==> #[trigger] g[i][0]
    &&& forall|i: int| 0 <= i < g.len() ==> #[trigger] g[i][g[i].len() - 1]
}

pub open spec fn grid_wf(g: Seq<Seq<bool>>) -> bool {
    grid_rect(g) && grid_framed(g)
}

/// Every cell of row `i` is occupied. With the frame columns always
/// occupied this is equivalent to all interior cells of the row being
/// occupied.
pub open spec fn row_full(g: Seq<Seq<bool>>, i: int) -> bool {
    forall|j: int| 0 <= j < g[i].len() ==> #[trigger] g[i][j]
}

/// The bottom-most full row among the candidate rows `2..=hi`, or `-1` if
/// none of them is full. The scan deliberately stops at row 2: row 1, the
/// row just below the top frame, is never a candidate.
pub open spec fn bottom_full_from(g: Seq<Seq<bool>>, hi: nat) -> int
    decreases hi,
{
    if hi < 2 {
        -1
    } else if row_full(g, hi as int) {
        hi as int
    } else {
        bottom_full_from(g, (hi - 1) as nat)
    }
}

/// What the scan returns: either `-1` and no candidate row is full, or the
/// unique bottom-most full candidate row.
pub proof fn lemma_bottom_full_from(g: Seq<Seq<bool>>, hi: nat)
    ensures
        ({
            let r = bottom_full_from(g, hi);
            ||| (r == -1 && forall|i: int| 2 <= i <= hi ==> !(#[trigger] row_full(g, i)))
            ||| (2 <= r <= hi && row_full(g, r) && forall|i: int|
                r < i <= hi ==> !(#[trigger] row_full(g, i)))
        }),
    decreases hi,
{
    if hi >= 2 && !row_full(g, hi as int) {
        lemma_bottom_full_from(g, (hi - 1) as nat);
    }
}

/// Row `i` of the grid after a compaction reaching down to it has copied
/// the interior cells of columns `1..upto` from the row above; the frame
/// columns keep their own cells.
pub open spec fn shifted_row_upto(g: Seq<Seq<bool>>, i: int, upto: int) -> Seq<bool> {
    Seq::new(
        g[i].len(),
        |c: int|
            if 1 <= c < upto {
                g[i - 1][c]
            } else {
                g[i][c]
            },
    )
}

/// Row `i` after a compaction: its whole interior comes from the row above.
pub open spec fn shifted_row(g: Seq<Seq<bool>>, i: int) -> Seq<bool> {
    shifted_row_upto(g, i, g[i].len() - 1)
}

/// The grid after one compaction at full row `r`: every row from 3 up to
/// `r` copies its interior from the row immediately above it; rows 0 to 2,
/// the rows below `r`, and the frame columns keep their cells. Row 2, the
/// topmost candidate row, keeps its old content and is also duplicated into
/// row 3.
pub open spec fn shift_down(g: Seq<Seq<bool>>, r: int) -> Seq<Seq<bool>> {
    Seq::new(
        g.len(),
        |i: int|
            if 3 <= i <= r {
                shifted_row(g, i)
            } else {
                g[i]
            },
    )
}

/// How many of the cells `[lo, hi)` of a row are occupied.
pub open spec fn count_cells(row: Seq<bool>, lo: int, hi: int) -> nat
    decreases hi - lo,
{
    if lo >= hi {
        0
    } else {
        (if row[lo] {
            1nat
        } else {
            0nat
        }) + count_cells(row, lo + 1, hi)
    }
}

/// How many interior cells of a row are occupied.
pub open spec fn row_interior_count(row: Seq<bool>) -> nat {
    count_cells(row, 1, row.len() - 1)
}

/// The occupied interior cells of rows `[lo, hi)`, summed.
pub open spec fn rows_count(g: Seq<Seq<bool>>, lo: int, hi: int) -> nat
    decreases hi - lo,
{
    if lo >= hi {
        0
    } else {
        row_interior_count(g[lo]) + rows_count(g, lo + 1, hi)
    }
}

/// The cascade's termination measure: the occupied interior cells of the
/// whole grid.
pub open spec fn grid_count(g: Seq<Seq<bool>>) -> nat {
    rows_count(g, 0, g.len() as int)
}

proof fn lemma_count_cells_congruent(r1: Seq<bool>, r2: Seq<bool>, lo: int, hi: int)
    requires
        forall|j: int| lo <= j < hi ==> r1[j] == r2[j],
    ensures
        count_cells(r1, lo, hi) == count_cells(r2, lo, hi),
    decreases hi - lo,
{
    if lo < hi {
        lemma_count_cells_congruent(r1, r2, lo + 1, hi);
    }
}

proof fn lemma_count_cells_full(row: Seq<bool>, lo: int, hi: int)
    requires
        lo <= hi,
        forall|j: int| lo <= j < hi ==> row[j],
    ensures
        count_cells(row, lo, hi) == hi - lo,
    decreases hi - lo,
{
    if lo < hi {
        lemma_count_cells_full(row, lo + 1, hi);
    }
}

proof fn lemma_count_cells_le(row: Seq<bool>, lo: int, hi: int)
    ensures
        count_cells(row, lo, hi) <= if hi >= lo {
            hi - lo
        } else {
            0
        },
    decreases hi - lo,
{
    if lo < hi {
        lemma_count_cells_le(row, lo + 1, hi);
    }
}

proof fn lemma_count_cells_missing(row: Seq<bool>, lo: int, hi: int, m: int)
    requires
        lo <= m < hi,
        !row[m],
    ensures
        count_cells(row, lo, hi) < hi - lo,
    decreases hi - lo,
{
    if lo == m {
        lemma_count_cells_le(row, lo + 1, hi);
    } else {
        lemma_count_cells_missing(row, lo + 1, hi, m);
    }
}

proof fn lemma_rows_count_split(g: Seq<Seq<bool>>, lo: int, mid: int, hi: int)
    requires
        lo <= mid <= hi,
    ensures
        rows_count(g, lo, hi) == rows_count(g, lo, mid) + rows_count(g, mid, hi),
    decreases mid - lo,
{
    if lo < mid {
        lemma_rows_count_split(g, lo + 1, mid, hi);
    }
}

proof fn lemma_rows_count_congruent(g1: Seq<Seq<bool>>, g2: Seq<Seq<bool>>, lo: int, hi: int)
    requires
        forall|i: int| lo <= i < hi ==> row_interior_count(#[trigger] g1[i]) == row_interior_count(
            g2[i],
        ),
    ensures
        rows_count(g1, lo, hi) == rows_count(g2, lo, hi),
    decreases hi - lo,
{
    if lo < hi {
        lemma_rows_count_congruent(g1, g2, lo + 1, hi);
    }
}

proof fn lemma_rows_count_offset(g1: Seq<Seq<bool>>, g2: Seq<Seq<bool>>, lo: int, hi: int)
    requires
        forall|i: int| lo <= i < hi ==> row_interior_count(#[trigger] g1[i]) == row_interior_count(
            g2[i - 1],
        ),
    ensures
        rows_count(g1, lo, hi) == rows_count(g2, lo - 1, hi - 1),
    decreases hi - lo,
{
    if lo < hi {
        lemma_rows_count_offset(g1, g2, lo + 1, hi);
    }
}

/// One compaction at a full candidate row keeps the grid's shape, its
/// frame, and rows 0 to 2, leaves row 2 unfull, and strictly lowers the
/// occupied-cell measure.
pub proof fn lemma_shift_down_properties(g: Seq<Seq<bool>>, r: int)
    requires
        grid_wf(g),
        3 <= r <= g.len() - 2,
        row_full(g, r),
        !row_full(g, 2),
    ensures
        shift_down(g, r).len() == g.len(),
        forall|i: int| 0 <= i < g.len() ==> (#[trigger] shift_down(g, r)[i]).len() == g[i].len(),
        forall|i: int| 0 <= i < 3 ==> #[trigger] shift_down(g, r)[i] == g[i],
        forall|i: int| r < i < g.len() ==> #[trigger] shift_down(g, r)[i] == g[i],
        grid_wf(shift_down(g, r)),
        !row_full(shift_down(g, r), 2),
        grid_count(shift_down(g, r)) < grid_count(g),
{
    let s = shift_down(g, r);
    let len = g.len() as int;
    let cols = g[0].len() as int;

    assert forall|i: int| 0 <= i < g.len() implies (#[trigger] s[i]).len() == g[i].len() by {}
    assert(grid_framed(s)) by {
        assert forall|i: int| 0 <= i < s.len() implies #[trigger] s[i][0] by {}
        assert forall|i: int| 0 <= i < s.len() implies #[trigger] s[i][s[i].len() - 1] by {
            if 3 <= i <= r {
                assert(s[i][s[i].len() - 1] == g[i][g[i].len() - 1]);
            }
        }
    }
    assert(s[2] == g[2]);
    assert(!row_full(s, 2)) by {
        let j = choose|j: int| 0 <= j < g[2].len() && !(#[trigger] g[2][j]);
        assert(!s[2][j]);
    }

    // The measure decreases: the compaction replaces the interior counts of
    // rows 3..=r with those of rows 2..=r-1, dropping a full row's count
    // and keeping row 2's, which is short of full.
    assert forall|i: int| 3 <= i < r + 1 implies row_interior_count(#[trigger] s[i])
        == row_interior_count(g[i - 1]) by {
        assert(g[i].len() == cols && g[i - 1].len() == cols);
        lemma_count_cells_congruent(s[i], g[i - 1], 1, cols - 1);
    }
    assert forall|i: int| 0 <= i < 3 implies row_interior_count(#[trigger] s[i])
        == row_interior_count(g[i]) by {}
    assert forall|i: int| r + 1 <= i < len implies row_interior_count(#[trigger] s[i])
        == row_interior_count(g[i]) by {}

    lemma_rows_count_split(s, 0, 3, len);
    lemma_rows_count_split(s, 3, r + 1, len);
    lemma_rows_count_split(g, 0, 3, len);
    lemma_rows_count_split(g, 3, r + 1, len);
    lemma_rows_count_congruent(s, g, 0, 3);
    lemma_rows_count_congruent(s, g, r + 1, len);
    lemma_rows_count_offset(s, g, 3, r + 1);
    // rows_count(s, 3, r + 1) == rows_count(g, 2, r)
    lemma_rows_count_split(g, 2, 3, r);
    lemma_rows_count_split(g, 3, r, r + 1);
    assert(rows_count(g, 3, 3) == 0);
    assert(rows_count(g, r + 1, r + 1) == 0);
    assert(rows_count(g, 2, 3) == row_interior_count(g[2]));
    assert(rows_count(g, r, r + 1) == row_interior_count(g[r]));
    assert(rows_count(g, 2, r) == row_interior_count(g[2]) + rows_count(g, 3, r)) by {
        lemma_rows_count_split(g, 2, 3, r);
    }
    assert(row_interior_count(g[r]) == cols - 2) by {
        assert(g[r].len() == cols);
        lemma_count_cells_full(g[r], 1, cols - 1);
    }
    assert(row_interior_count(g[2]) < cols - 2) by {
        let j = choose|j: int| 0 <= j < g[2].len() && !(#[trigger] g[2][j]);
        assert(g[2].len() == cols);
        assert(g[2][0] && g[2][g[2].len() - 1]);
        assert(1 <= j < cols - 1);
        lemma_count_cells_missing(g[2], 1, cols - 1, j);
    }
}

/// The observable end state of the clear cascade: repeatedly compact at the
/// bottom-most full candidate row, restarting the scan after each
/// compaction, until no candidate row is full.
pub open spec fn cascade(g: Seq<Seq<bool>>) -> Seq<Seq<bool>>
    decreases grid_count(g),
        when grid_wf(g) && !row_full(g, 2)
        via cascade_decreases
{
    let r = bottom_full_from(g, (g.len() - 2) as nat);
    if r >= 3 {
        cascade(shift_down(g, r))
    } else {
        g
    }
}

#[via_fn]
proof fn cascade_decreases(g: Seq<Seq<bool>>) {
    let r = bottom_full_from(g, (g.len() - 2) as nat);
    if r >= 3 {
        lemma_bottom_full_from(g, (g.len() - 2) as nat);
        lemma_shift_down_properties(g, r);
    }
}

/// After the cascade no candidate row is full, so running the cascade a
/// second time clears nothing and leaves the grid unchanged.
pub proof fn lemma_cascade_fixpoint(g: Seq<Seq<bool>>)
    requires
        grid_wf(g),
        !row_full(g, 2),
    ensures
        grid_wf(cascade(g)),
        !row_full(cascade(g), 2),
        cascade(g).len() == g.len(),
        forall|i: int| 0 <= i < g.len() ==> (#[trigger] cascade(g)[i]).len() == g[i].len(),
        forall|i: int| 2 <= i <= g.len() - 2 ==> !(#[trigger] row_full(cascade(g), i)),
        bottom_full_from(cascade(g), (cascade(g).len() - 2) as nat) == -1,
        cascade(cascade(g)) == cascade(g),
    decreases grid_count(g),
{
    let r = bottom_full_from(g, (g.len() - 2) as nat);
    lemma_bottom_full_from(g, (g.len() - 2) as nat);
    if r >= 3 {
        lemma_shift_down_properties(g, r);
        lemma_cascade_fixpoint(shift_down(g, r));
    } else {
        assert(r == -1) by {
            if r != -1 {
                assert(2 <= r && row_full(g, r));
            }
        }
        assert(cascade(g) == g);
        lemma_bottom_full_from(cascade(g), (cascade(g).len() - 2) as nat);
    }
}

/// Law: clearing is idempotent when no merge intervenes. After one cascade
/// no candidate row is full, so a second clear pass reports that nothing
/// was cleared and leaves the grid unchanged.
pub proof fn lemma_redundant_clear(g: Seq<Seq<bool>>)
    requires
        grid_wf(g),
        !row_full(g, 2),
    ensures
        !(exists|i: int| 2 <= i <= cascade(g).len() - 2 && row_full(cascade(g), i)),
        cascade(cascade(g)) == cascade(g),
{
    lemma_cascade_fixpoint(g);
}

} // verus!
