use vstd::prelude::*;

use crate::clearing::bottom_full_from;
use crate::clearing::cascade;
use crate::clearing::grid_count;
use crate::clearing::grid_framed;
use crate::clearing::grid_rect;
use crate::clearing::grid_wf;
use crate::clearing::lemma_bottom_full_from;
use crate::clearing::lemma_shift_down_properties;
use crate::clearing::row_full;
use crate::clearing::shift_down;
use crate::clearing::shifted_row;
use crate::clearing::shifted_row_upto;
use crate::patterns::mask_cell;
use crate::patterns::mask_at;
use crate::tetromino::Tetromino;
use crate::tetromino::lemma_num_patterns_pos;
use crate::tetromino::lemma_rotation_cycle;
use crate::tetromino::rotate_back_iter;
use crate::tetromino::spec_num_patterns;
use crate::tetromino::spec_patterns;
use crate::tetromino::spec_rotate_back;
use crate::tetromino::spec_rotate_fwd;

verus! {

/// One discrete movement of the active piece.
#[derive(Clone, Copy, Debug, PartialEq, Eq, Structural)]
pub enum Movement {
    Down,
    Left,
    Right,
    RotateLeft,
    RotateRight,
}

/// Whether the piece's current rotation state occupies the absolute grid
/// cell `(r, c)`.
pub open spec fn piece_covers(t: Tetromino, r: int, c: int) -> bool {
    mask_cell(spec_patterns(t.t_type)[t.selected_pattern as int], r - t.i, c - t.j)
}

/// Whether some occupied cell of the piece's mask lands on an occupied grid
/// cell. Mask cells whose absolute coordinate falls outside the grid are
/// vacuous: they never collide.
pub open spec fn spec_overlaps(g: Seq<Seq<bool>>, t: Tetromino) -> bool {
    exists|r: int, c: int|
        0 <= r < g.len() && 0 <= c < g[r].len() && piece_covers(t, r, c) && (#[trigger] g[r][c])
}

/// The grid after baking the piece's occupied, on-grid mask cells into it:
/// each cell is the disjunction of its old value and the piece's mask, so
/// merging never unsets an occupied cell.
pub open spec fn merged_grid(g: Seq<Seq<bool>>, t: Tetromino) -> Seq<Seq<bool>> {
    Seq::new(g.len(), |r: int| Seq::new(g[r].len(), |c: int| g[r][c] || piece_covers(t, r, c)))
}

/// The merge after only the mask cells with row-major local index below `k`
/// have been baked in.
spec fn merged_upto(g: Seq<Seq<bool>>, t: Tetromino, k: int) -> Seq<Seq<bool>> {
    Seq::new(
        g.len(),
        |r: int|
            Seq::new(
                g[r].len(),
                |c: int| g[r][c] || (piece_covers(t, r, c) && 4 * (r - t.i) + (c - t.j) < k),
            ),
    )
}

/// The state of the grid in the middle of one compaction at row `r`: the
/// rows strictly between `i` and `r` are fully shifted, row `i` has copied
/// the interior columns below `upto`, and the rest is untouched.
spec fn shift_down_mid(g: Seq<Seq<bool>>, r: int, i: int, upto: int) -> Seq<Seq<bool>> {
    Seq::new(
        g.len(),
        |a: int|
            if a == i {
                shifted_row_upto(g, i, upto)
            } else if i < a && a <= r {
                shifted_row(g, a)
            } else {
                g[a]
            },
    )
}

/// The piece the active piece becomes under one movement, before the
/// grid-level collision check: down and right translate the anchor, left
/// translates it unless the piece already stands at column 0, and the
/// rotations step circularly through the catalog list.
pub open spec fn spec_move(t: Tetromino, movement: Movement) -> Tetromino {
    match movement {
        Movement::Down => Tetromino { i: (t.i + 1) as isize, ..t },
        Movement::Left => if t.j == 0 {
            t
        } else {
            Tetromino { j: (t.j - 1) as isize, ..t }
        },
        Movement::Right => Tetromino { j: (t.j + 1) as isize, ..t },
        Movement::RotateLeft => Tetromino {
            selected_pattern: spec_rotate_back(
                t.selected_pattern as nat,
                spec_num_patterns(t.t_type),
            ) as usize,
            ..t
        },
        Movement::RotateRight => Tetromino {
            selected_pattern: spec_rotate_fwd(
                t.selected_pattern as nat,
                spec_num_patterns(t.t_type),
            ) as usize,
            ..t
        },
    }
}

/// The piece after `k` rotate-left movements.
pub open spec fn rotate_left_iter(t: Tetromino, k: nat) -> Tetromino
    decreases k,
{
    if k == 0 {
        t
    } else {
        spec_move(rotate_left_iter(t, (k - 1) as nat), Movement::RotateLeft)
    }
}

proof fn lemma_rotate_left_iter_fields(t: Tetromino, k: nat)
    requires
        t.wf(),
    ensures
        rotate_left_iter(t, k).i == t.i,
        rotate_left_iter(t, k).j == t.j,
        rotate_left_iter(t, k).t_type == t.t_type,
        rotate_left_iter(t, k).selected_pattern as nat == rotate_back_iter(
            t.selected_pattern as nat,
            spec_num_patterns(t.t_type),
            k,
        ),
        rotate_left_iter(t, k).wf(),
    decreases k,
{
    lemma_num_patterns_pos(t.t_type);
    if k > 0 {
        lemma_rotate_left_iter_fields(t, (k - 1) as nat);
    }
}

/// Law: applying the rotate-left movement once for every rotation state of
/// the piece's type returns the piece to exactly its original state.
pub proof fn lemma_rotate_left_cycle(t: Tetromino)
    requires
        t.wf(),
    ensures
        rotate_left_iter(t, spec_num_patterns(t.t_type)) == t,
{
    let n = spec_num_patterns(t.t_type);
    lemma_rotate_left_iter_fields(t, n);
    lemma_rotation_cycle(t.selected_pattern as nat, n);
}

/// The coordinates of the occupied cells among the first `n` cells of row
/// `r`, in column order.
pub open spec fn row_blocks(row: Seq<bool>, r: int, n: int) -> Seq<(isize, isize)>
    decreases n,
{
    if n <= 0 {
        Seq::empty()
    } else {
        row_blocks(row, r, n - 1) + if row[n - 1] {
            seq![(r as isize, (n - 1) as isize)]
        } else {
            Seq::empty()
        }
    }
}

/// The coordinates of the occupied cells of the first `m` rows, row-major.
pub open spec fn grid_blocks(g: Seq<Seq<bool>>, m: int) -> Seq<(isize, isize)>
    decreases m,
{
    if m <= 0 {
        Seq::empty()
    } else {
        grid_blocks(g, m - 1) + row_blocks(g[m - 1], m - 1, g[m - 1].len() as int)
    }
}

/// The glyphs of the first `n` cells of a row: one glyph per cell, occupied
/// cells drawn as `X`, empty ones as `_`.
pub open spec fn row_chars(row: Seq<bool>, n: int) -> Seq<char>
    decreases n,
{
    if n <= 0 {
        Seq::empty()
    } else {
        row_chars(row, n - 1).push(
            if row[n - 1] {
                'X'
            } else {
                '_'
            },
        )
    }
}

/// The textual dump of the first `m` rows, each row of glyphs followed by a
/// newline.
pub open spec fn grid_chars(g: Seq<Seq<bool>>, m: int) -> Seq<char>
    decreases m,
{
    if m <= 0 {
        Seq::empty()
    } else {
        grid_chars(g, m - 1) + row_chars(g[m - 1], g[m - 1].len() as int).push('\n')
    }
}

fn copy_matrix(m: &Vec<Vec<bool>>) -> (c: Vec<Vec<bool>>)
    ensures
        c@.len() == m@.len(),
        forall|i: int| 0 <= i < m@.len() ==> (#[trigger] c@[i]@) == m@[i]@,
{
    let mut c: Vec<Vec<bool>> = Vec::new();
    let mut i: usize = 0;
    while i < m.len()
        invariant
            i <= m@.len(),
            c@.len() == i,
            forall|r: int| 0 <= r < i ==> (#[trigger] c@[r]@) == m@[r]@,
        decreases m@.len() - i,
    {
        let mut row: Vec<bool> = Vec::new();
        let mut j: usize = 0;
        let n = m[i].len();
        while j < n
            invariant
                j <= n,
                i < m@.len(),
                n == m@[i as int]@.len(),
                row@.len() == j,
                forall|k: int| 0 <= k < j ==> (#[trigger] row@[k]) == m@[i as int]@[k],
            decreases n - j,
        {
            let v = m[i][j];
            row.push(v);
            j += 1;
        }
        proof {
            assert(row@ =~= m@[i as int]@);
        }
        c.push(row);
        i += 1;
    }
    c
}

/// Law: a piece standing at column 0 is left unmoved by a left movement -
/// the piece-level clamp acts before and independently of the grid-level
/// collision check - so a left movement on such a piece is rejected only if
/// the piece already collides where it stands.
pub proof fn lemma_left_clamp(g: Seq<Seq<bool>>, t: Tetromino)
    requires
        t.j == 0,
    ensures
        spec_move(t, Movement::Left) == t,
        spec_overlaps(g, spec_move(t, Movement::Left)) == spec_overlaps(g, t),
{
}

/// Law: merging is monotone cell by cell: afterwards a cell is occupied
/// exactly when it was occupied before or the piece's mask covers it, so no
/// occupied cell is ever unset.
pub proof fn lemma_merge_monotone(g: Seq<Seq<bool>>, t: Tetromino, r: int, c: int)
    requires
        0 <= r < g.len(),
        0 <= c < g[r].len(),
    ensures
        merged_grid(g, t)[r][c] == (g[r][c] || piece_covers(t, r, c)),
        g[r][c] ==> merged_grid(g, t)[r][c],
{
}

/// The grid plus the one active piece.
#[derive(Clone)]
pub struct Board {
    pub matrix: Vec<Vec<bool>>,
    pub tetromino: Tetromino,
}

impl Board {
    /// The grid as a sequence of rows of occupancy flags.
    pub open spec fn grid(self) -> Seq<Seq<bool>> {
        self.matrix@.map_values(|row: Vec<bool>| row@)
    }

    pub open spec fn wf(self) -> bool {
        grid_wf(self.grid()) && self.tetromino.wf()
    }

    /// A fresh playfield: the frame pre-occupied, the interior empty, and a
    /// randomly drawn piece at the fixed spawn anchor.
    pub fn new(rows: usize, cols: usize) -> (b: Board)
        requires
            4 <= rows,
            4 <= cols,
        ensures
            b.grid().len() == rows,
            forall|i: int| 0 <= i < rows ==> (#[trigger] b.grid()[i]).len() == cols,
            forall|i: int, j: int|
                0 <= i < rows && 0 <= j < cols ==> (#[trigger] b.grid()[i][j]) == (i == 0 || j == 0
                    || i == rows - 1 || j == cols - 1),
            b.wf(),
            b.tetromino.i == 2,
            b.tetromino.j == 2,
            b.tetromino.selected_pattern == 0,
    {
        let mut matrix: Vec<Vec<bool>> = Vec::new();
        let mut i: usize = 0;
        while i < rows
            invariant
                i <= rows,
                4 <= rows,
                4 <= cols,
                matrix@.len() == i,
                forall|r: int| 0 <= r < i ==> (#[trigger] matrix@[r]@).len() == cols,
                forall|r: int, c: int|
                    0 <= r < i && 0 <= c < cols ==> (#[trigger] matrix@[r]@[c]) == (r == 0 || c == 0
                        || r == rows - 1 || c == cols - 1),
            decreases rows - i,
        {
            let mut row: Vec<bool> = Vec::new();
            let mut j: usize = 0;
            while j < cols
                invariant
                    j <= cols,
                    i < rows,
                    row@.len() == j,
                    forall|c: int|
                        0 <= c < j ==> (#[trigger] row@[c]) == (i == 0 || c == 0 || i == rows - 1
                            || c == cols - 1),
                decreases cols - j,
            {
                let occupied = i == 0 || j == 0 || i == rows - 1 || j == cols - 1;
                row.push(occupied);
                j += 1;
            }
            matrix.push(row);
            i += 1;
        }
        let b = Board { matrix, tetromino: Tetromino::random() };
        proof {
            assert forall|r: int| 0 <= r < rows implies (#[trigger] b.grid()[r]).len() == cols by {
                assert(b.grid()[r] == b.matrix@[r]@);
            }
            assert(grid_framed(b.grid()));
        }
        b
    }

    /// Collision test between the active piece's mask and the grid: true iff
    /// some occupied mask cell whose absolute coordinate lies on the grid
    /// lands on an occupied grid cell.
    pub fn overlaps(&self) -> (found: bool)
        requires
            self.wf(),
            0 <= self.tetromino.i,
            self.tetromino.i <= isize::MAX - 4,
            self.tetromino.j <= isize::MAX - 4,
        ensures
            found == spec_overlaps(self.grid(), self.tetromino),
    {
        let rotation = self.tetromino.actual_rotation();
        let rows = self.matrix.len();
        let ghost t = self.tetromino;
        let ghost g = self.grid();
        let mut i: usize = 0;
        while i < 4
            invariant
                i <= 4,
                self.wf(),
                t == self.tetromino,
                g == self.grid(),
                0 <= t.i,
                t.i <= isize::MAX - 4,
                t.j <= isize::MAX - 4,
                rows == g.len(),
                rotation == spec_patterns(t.t_type)[t.selected_pattern as int],
                forall|r: int, c: int|
                    0 <= r < g.len() && 0 <= c < g[r].len() && piece_covers(t, r, c) && 4 * (r
                        - t.i) + (c - t.j) < 4 * i ==> !(#[trigger] g[r][c]),
            decreases 4 - i,
        {
            let mut j: usize = 0;
            while j < 4
                invariant
                    i < 4,
                    j <= 4,
                    self.wf(),
                    t == self.tetromino,
                    g == self.grid(),
                    0 <= t.i,
                    t.i <= isize::MAX - 4,
                    t.j <= isize::MAX - 4,
                    rows == g.len(),
                    rotation == spec_patterns(t.t_type)[t.selected_pattern as int],
                    forall|r: int, c: int|
                        0 <= r < g.len() && 0 <= c < g[r].len() && piece_covers(t, r, c) && 4 * (r
                            - t.i) + (c - t.j) < 4 * i + j ==> !(#[trigger] g[r][c]),
                decreases 4 - j,
            {
                let i_board: isize = self.tetromino.i + (i as isize);
                let j_board: isize = self.tetromino.j + (j as isize);

                if (i_board as usize) < rows && j_board >= 0 && (j_board as usize)
                    < self.matrix[i_board as usize].len() {
                    proof {
                        assert(g[i_board as int] == self.matrix@[i_board as int]@);
                    }
                    if mask_at(rotation, i, j) && self.matrix[i_board as usize][j_board as usize] {
                        proof {
                            assert(piece_covers(t, i_board as int, j_board as int));
                            assert(g[i_board as int][j_board as int]);
                        }
                        return true;
                    }
                }
                proof {
                    assert forall|r: int, c: int|
                        0 <= r < g.len() && 0 <= c < g[r].len() && piece_covers(t, r, c) && 4 * (r
                            - t.i) + (c - t.j) < 4 * i + j + 1 implies !(#[trigger] g[r][c]) by {
                        if 4 * (r - t.i) + (c - t.j) == 4 * i + j {
                            assert(r - t.i == i && c - t.j == j);
                        }
                    }
                }
                j += 1;
            }
            i += 1;
        }
        proof {
            assert(!spec_overlaps(g, t));
        }
        false
    }

    /// Applies one movement atomically: the piece's transform is kept only
    /// if the transformed piece does not collide with the grid; on a
    /// collision the piece's anchor and rotation are restored unchanged and
    /// the movement is reported rejected.
    pub fn apply_movement(&mut self, movement: Movement) -> (accepted: bool)
        requires
            old(self).wf(),
            0 <= old(self).tetromino.i,
            old(self).tetromino.i <= isize::MAX - 5,
            old(self).tetromino.j <= isize::MAX - 5,
            isize::MIN < old(self).tetromino.j,
        ensures
            final(self).grid() == old(self).grid(),
            final(self).wf(),
            accepted == !spec_overlaps(old(self).grid(), spec_move(old(self).tetromino, movement)),
            final(self).tetromino == if accepted {
                spec_move(old(self).tetromino, movement)
            } else {
                old(self).tetromino
            },
    {
        let previous_position = self.tetromino;

        match movement {
            Movement::Down => {
                self.tetromino.move_down();
            },
            Movement::Left => {
                self.tetromino.move_left();
            },
            Movement::Right => {
                self.tetromino.move_right();
            },
            Movement::RotateLeft => {
                self.tetromino.rotate_left();
            },
            Movement::RotateRight => {
                self.tetromino.rotate_right();
            },
        }
        proof {
            assert(self.tetromino == spec_move(previous_position, movement));
        }

        if self.overlaps() {
            self.tetromino = previous_position;
            return false;
        }

        true
    }

    /// Bakes the active piece into the grid permanently: every occupied,
    /// on-grid cell of its mask is set in the grid, by disjunction, so no
    /// occupied cell is ever unset. The piece itself is left in place; the
    /// caller discards or replaces it.
    pub fn merge(&mut self)
        requires
            old(self).wf(),
            0 <= old(self).tetromino.i,
            old(self).tetromino.i <= isize::MAX - 4,
            old(self).tetromino.j <= isize::MAX - 4,
        ensures
            final(self).grid() == merged_grid(old(self).grid(), old(self).tetromino),
            final(self).tetromino == old(self).tetromino,
            final(self).wf(),
    {
        let rotation = self.tetromino.actual_rotation();
        let rows = self.matrix.len();
        let ghost t = self.tetromino;
        let ghost g0 = self.grid();
        proof {
            assert(self.grid() =~~= merged_upto(g0, t, 0));
        }
        let mut i: usize = 0;
        while i < 4
            invariant
                i <= 4,
                t == self.tetromino,
                grid_wf(g0),
                t.wf(),
                0 <= t.i,
                t.i <= isize::MAX - 4,
                t.j <= isize::MAX - 4,
                rows == g0.len(),
                rows == self.matrix@.len(),
                rotation == spec_patterns(t.t_type)[t.selected_pattern as int],
                self.grid() == merged_upto(g0, t, 4 * i),
            decreases 4 - i,
        {
            let mut j: usize = 0;
            while j < 4
                invariant
                    i < 4,
                    j <= 4,
                    t == self.tetromino,
                    grid_wf(g0),
                    t.wf(),
                    0 <= t.i,
                    t.i <= isize::MAX - 4,
                    t.j <= isize::MAX - 4,
                    rows == g0.len(),
                    rows == self.matrix@.len(),
                    rotation == spec_patterns(t.t_type)[t.selected_pattern as int],
                    self.grid() == merged_upto(g0, t, 4 * i + j),
                decreases 4 - j,
            {
                let ghost k = 4 * i + j;
                let i_board: isize = self.tetromino.i + (i as isize);
                let j_board: isize = self.tetromino.j + (j as isize);

                if (i_board as usize) < rows && j_board >= 0 && (j_board as usize)
                    < self.matrix[i_board as usize].len() {
                    let r = i_board as usize;
                    let c = j_board as usize;
                    let ghost gpre = self.grid();
                    proof {
                        assert(gpre[r as int] == self.matrix@[r as int]@);
                        assert(gpre[r as int].len() == g0[r as int].len());
                    }
                    let occ = mask_at(rotation, i, j) || self.matrix[r][c];
                    self.matrix[r][c] = occ;
                    proof {
                        let ri = r as int;
                        let ci = c as int;
                        assert(self.matrix@[ri]@ == gpre[ri].update(ci, occ));
                        assert(occ == (g0[ri][ci] || piece_covers(t, ri, ci))) by {
                            assert(ri - t.i == i && ci - t.j == j);
                            assert(gpre[ri][ci] == merged_upto(g0, t, k)[ri][ci]);
                        }
                        assert forall|a: int, b: int|
                            0 <= a < g0.len() && 0 <= b < g0[a].len() && !(a == ri && b == ci)
                                implies !(piece_covers(t, a, b) && 4 * (a - t.i) + (b - t.j)
                                == k) by {
                            if piece_covers(t, a, b) && 4 * (a - t.i) + (b - t.j) == k {
                                assert(a - t.i == i && b - t.j == j);
                            }
                        }
                        assert forall|a: int| 0 <= a < rows implies #[trigger] self.grid()[a]
                            =~= merged_upto(g0, t, k + 1)[a] by {
                            assert(self.grid()[a] == self.matrix@[a]@);
                            if a != ri {
                                assert(self.matrix@[a]@ == gpre[a]);
                            }
                            assert(gpre[a] == merged_upto(g0, t, k)[a]);
                        }
                        assert(self.grid() =~= merged_upto(g0, t, k + 1));
                    }
                } else {
                    proof {
                        assert forall|a: int, b: int|
                            0 <= a < g0.len() && 0 <= b < g0[a].len() implies !(piece_covers(t, a, b)
                            && 4 * (a - t.i) + (b - t.j) == k) by {
                            if piece_covers(t, a, b) && 4 * (a - t.i) + (b - t.j) == k {
                                assert(a - t.i == i && b - t.j == j);
                                assert(a == i_board as int && b == j_board as int);
                                assert(self.grid()[a] == merged_upto(g0, t, k)[a]);
                                assert(self.matrix@[a]@.len() == g0[a].len());
                                assert(false);
                            }
                        }
                        assert forall|a: int| 0 <= a < rows implies #[trigger] self.grid()[a]
                            =~= merged_upto(g0, t, k + 1)[a] by {
                            assert(self.grid()[a] == merged_upto(g0, t, k)[a]);
                        }
                        assert(self.grid() =~= merged_upto(g0, t, k + 1));
                    }
                }
                j += 1;
            }
            i += 1;
        }
        proof {
            assert(self.grid() =~~= merged_grid(g0, t));
            assert(grid_framed(self.grid())) by {
                assert forall|a: int| 0 <= a < self.grid().len() implies (#[trigger] self.grid()[a]).len()
                    == g0[a].len() by {}
            }
        }
    }

    /// The coordinates of every occupied grid cell, in row-major order, for
    /// the caller to render. The active piece is not included.
    pub fn blocks(&self) -> (bs: Vec<(isize, isize)>)
        requires
            self.matrix@.len() <= isize::MAX,
            forall|r: int|
                0 <= r < self.matrix@.len() ==> (#[trigger] self.matrix@[r]@).len() <= isize::MAX,
        ensures
            bs@ == grid_blocks(self.grid(), self.grid().len() as int),
    {
        let ghost g = self.grid();
        let mut bs: Vec<(isize, isize)> = Vec::new();
        let rows = self.matrix.len();
        let mut i: usize = 0;
        while i < rows
            invariant
                i <= rows,
                g == self.grid(),
                rows == self.matrix@.len(),
                rows <= isize::MAX,
                forall|r: int| 0 <= r < rows ==> (#[trigger] self.matrix@[r]@).len() <= isize::MAX,
                bs@ == grid_blocks(g, i as int),
            decreases rows - i,
        {
            let cols = self.matrix[i].len();
            let mut j: usize = 0;
            while j < cols
                invariant
                    i < rows,
                    j <= cols,
                    g == self.grid(),
                    rows == self.matrix@.len(),
                    rows <= isize::MAX,
                    cols == self.matrix@[i as int]@.len(),
                    cols <= isize::MAX,
                    bs@ == grid_blocks(g, i as int) + row_blocks(g[i as int], i as int, j as int),
                decreases cols - j,
            {
                proof {
                    assert(g[i as int] == self.matrix@[i as int]@);
                }
                if self.matrix[i][j] {
                    bs.push((i as isize, j as isize));
                }
                proof {
                    assert(bs@ =~= grid_blocks(g, i as int) + row_blocks(
                        g[i as int],
                        i as int,
                        j + 1,
                    ));
                }
                j += 1;
            }
            proof {
                assert(bs@ =~= grid_blocks(g, i + 1));
            }
            i += 1;
        }
        bs
    }

    /// A human-readable dump of the grid with the active piece baked in:
    /// occupied cells as `X`, empty ones as `_`, one line per row.
    pub fn to_str(&self) -> (s: String)
        requires
            self.wf(),
            0 <= self.tetromino.i,
            self.tetromino.i <= isize::MAX - 4,
            self.tetromino.j <= isize::MAX - 4,
        ensures
            s@ == grid_chars(
                merged_grid(self.grid(), self.tetromino),
                self.grid().len() as int,
            ),
    {
        let mut copy = Board { matrix: copy_matrix(&self.matrix), tetromino: self.tetromino };
        proof {
            assert(copy.grid() =~= self.grid());
        }
        copy.merge();
        let ghost mg = copy.grid();

        let mut result = String::new();
        let rows = copy.matrix.len();
        let mut i: usize = 0;
        while i < rows
            invariant
                i <= rows,
                mg == copy.grid(),
                rows == copy.matrix@.len(),
                result@ == grid_chars(mg, i as int),
            decreases rows - i,
        {
            let cols = copy.matrix[i].len();
            let mut j: usize = 0;
            while j < cols
                invariant
                    i < rows,
                    j <= cols,
                    mg == copy.grid(),
                    rows == copy.matrix@.len(),
                    cols == copy.matrix@[i as int]@.len(),
                    result@ == grid_chars(mg, i as int) + row_chars(mg[i as int], j as int),
                decreases cols - j,
            {
                proof {
                    assert(mg[i as int] == copy.matrix@[i as int]@);
                    reveal_strlit("X");
                    reveal_strlit("_");
                }
                if copy.matrix[i][j] {
                    result.append("X");
                    proof {
                        assert(result@ =~= grid_chars(mg, i as int) + row_chars(
                            mg[i as int],
                            j + 1,
                        ));
                    }
                } else {
                    result.append("_");
                    proof {
                        assert(result@ =~= grid_chars(mg, i as int) + row_chars(
                            mg[i as int],
                            j + 1,
                        ));
                    }
                }
                j += 1;
            }
            proof {
                reveal_strlit("\n");
            }
            result.append("\n");
            proof {
                assert(result@ =~= grid_chars(mg, i + 1));
            }
            i += 1;
        }
        result
    }

    fn completed_row(&self, i: usize) -> (full: bool)
        requires
            i < self.matrix@.len(),
        ensures
            full == row_full(self.grid(), i as int),
    {
        let ghost g = self.grid();
        proof {
            assert(g[i as int] == self.matrix@[i as int]@);
        }
        let row_len = self.matrix[i].len();
        let mut j: usize = 0;
        while j < row_len
            invariant
                j <= row_len,
                i < self.matrix@.len(),
                g == self.grid(),
                g[i as int] == self.matrix@[i as int]@,
                row_len == g[i as int].len(),
                forall|c: int| 0 <= c < j ==> #[trigger] g[i as int][c],
            decreases row_len - j,
        {
            if !self.matrix[i][j] {
                return false;
            }
            j += 1;
        }
        true
    }

    fn move_rows(&mut self, row: usize)
        requires
            old(self).wf(),
            2 <= row,
            row + 2 <= old(self).grid().len(),
        ensures
            final(self).grid() == shift_down(old(self).grid(), row as int),
            final(self).tetromino == old(self).tetromino,
    {
        let ghost g0 = self.grid();
        let ghost t0 = self.tetromino;
        let rows = self.matrix.len();
        let mut i: usize = row;
        proof {
            assert(self.grid() =~~= shift_down_mid(g0, row as int, row as int, 1));
        }
        while i >= 3
            invariant
                2 <= i <= row,
                row + 2 <= g0.len(),
                grid_rect(g0),
                rows == g0.len(),
                rows == self.matrix@.len(),
                self.tetromino == t0,
                self.grid() == shift_down_mid(g0, row as int, i as int, 1),
            decreases i,
        {
            proof {
                assert(self.grid()[i as int].len() == g0[i as int].len());
                assert(self.grid()[i as int] == self.matrix@[i as int]@);
            }
            let len = self.matrix[i].len() - 1;
            let mut j: usize = 1;
            while j < len
                invariant
                    1 <= j <= len || (j == 1 && len == 0),
                    3 <= i <= row,
                    row + 2 <= g0.len(),
                    grid_rect(g0),
                    rows == g0.len(),
                    rows == self.matrix@.len(),
                    self.tetromino == t0,
                    len + 1 == g0[i as int].len(),
                    self.grid() == shift_down_mid(g0, row as int, i as int, j as int),
                decreases len - j,
            {
                proof {
                    assert(self.grid()[i as int - 1] == self.matrix@[i as int - 1]@);
                    assert(self.grid()[i as int - 1].len() == g0[i as int - 1].len());
                    assert(g0[i as int - 1].len() == g0[i as int].len());
                    assert(self.grid()[i as int] == self.matrix@[i as int]@);
                    assert(self.grid()[i as int].len() == g0[i as int].len());
                }
                let ghost gpre = self.grid();
                let v = self.matrix[i - 1][j];
                self.matrix[i][j] = v;
                proof {
                    let ii = i as int;
                    let jj = j as int;
                    let rr = row as int;
                    assert(self.matrix@[ii]@ == gpre[ii].update(jj, v));
                    assert(v == g0[ii - 1][jj]);
                    assert forall|a: int| 0 <= a < rows implies #[trigger] self.grid()[a]
                        =~= shift_down_mid(g0, rr, ii, jj + 1)[a] by {
                        assert(self.grid()[a] == self.matrix@[a]@);
                        if a != ii {
                            assert(self.matrix@[a]@ == gpre[a]);
                        }
                        assert(gpre[a] == shift_down_mid(g0, rr, ii, jj)[a]);
                    }
                    assert(self.grid() =~~= shift_down_mid(g0, rr, ii, jj + 1));
                }
                j += 1;
            }
            proof {
                assert(self.grid() =~~= shift_down_mid(g0, row as int, i - 1, 1)) by {
                    assert forall|a: int| 0 <= a < rows implies #[trigger] self.grid()[a]
                        =~= shift_down_mid(g0, row as int, i - 1, 1)[a] by {
                        assert(self.grid()[a] == shift_down_mid(
                            g0,
                            row as int,
                            i as int,
                            len as int,
                        )[a]);
                    }
                }
            }
            i -= 1;
        }
        proof {
            assert(self.grid() =~~= shift_down(g0, row as int)) by {
                assert forall|a: int| 0 <= a < rows implies #[trigger] self.grid()[a] =~= shift_down(
                    g0,
                    row as int,
                )[a] by {
                    assert(self.grid()[a] == shift_down_mid(g0, row as int, 2, 1)[a]);
                }
            }
        }
    }

    /// Clears every completed row: scans the candidate rows from the bottom
    /// up; at each full row it compacts the stack, shifting the rows above
    /// down by one, then restarts the scan from the bottom, so rows that
    /// become full only through a compaction are cleared too. Returns
    /// whether any row was cleared.
    pub fn check_completed_rows(&mut self) -> (cleared: bool)
        requires
            old(self).wf(),
            !row_full(old(self).grid(), 2),
        ensures
            final(self).grid() == cascade(old(self).grid()),
            final(self).tetromino == old(self).tetromino,
            final(self).wf(),
            !row_full(final(self).grid(), 2),
            cleared == exists|i: int|
                2 <= i <= old(self).grid().len() - 2 && row_full(old(self).grid(), i),
    {
        let ghost g_start = self.grid();
        let ghost t_start = self.tetromino;
        let mut cleared = false;
        loop
            invariant
                g_start == old(self).grid(),
                t_start == old(self).tetromino,
                self.wf(),
                !row_full(self.grid(), 2),
                self.tetromino == t_start,
                self.grid().len() == g_start.len(),
                cascade(self.grid()) == cascade(g_start),
                grid_wf(g_start),
                !row_full(g_start, 2),
                cleared ==> exists|i: int|
                    2 <= i <= g_start.len() - 2 && row_full(g_start, i),
                !cleared ==> self.grid() == g_start,
            decreases grid_count(self.grid()),
        {
            let ghost g = self.grid();
            let rows = self.matrix.len();
            let last_candidate = rows - 2;
            let mut i: usize = last_candidate;
            let mut found = false;
            let mut full_row: usize = 0;
            while i >= 2 && !found
                invariant
                    1 <= i <= last_candidate,
                    last_candidate == rows - 2,
                    rows == self.matrix@.len(),
                    g == self.grid(),
                    found ==> 2 <= full_row <= last_candidate && row_full(g, full_row as int)
                        && forall|a: int|
                        full_row < a <= last_candidate ==> !(#[trigger] row_full(g, a)),
                    !found ==> forall|a: int|
                        i < a <= last_candidate ==> !(#[trigger] row_full(g, a)),
                decreases i, (if found {
                    0int
                } else {
                    1int
                }),
            {
                if self.completed_row(i) {
                    found = true;
                    full_row = i;
                } else {
                    i -= 1;
                }
            }

            proof {
                lemma_bottom_full_from(g, (g.len() - 2) as nat);
            }
            if found {
                proof {
                    assert(bottom_full_from(g, (g.len() - 2) as nat) == full_row);
                    assert(full_row != 2);
                    lemma_shift_down_properties(g, full_row as int);
                    assert(cascade(g) == cascade(shift_down(g, full_row as int)));
                }
                self.move_rows(full_row);
                cleared = true;
            } else {
                proof {
                    assert(bottom_full_from(g, (g.len() - 2) as nat) == -1);
                    assert(cascade(g) == g);
                }
                return cleared;
            }
        }
    }
}

} // verus!
