use vstd::prelude::*;

use crate::patterns::Pattern;
use rand::Rng;

verus! {

/// The seven piece types of the catalog.
#[allow(non_camel_case_types)]
#[derive(Clone, Copy, Debug, PartialEq, Eq, Structural)]
pub enum Type {
    I_BLOCK,
    O_BLOCK,
    L_BLOCK,
    J_BLOCK,
    T_BLOCK,
    S_BLOCK,
    Z_BLOCK,
}

/// The catalog: the ordered rotation states of each piece type. Successive
/// indices follow the conventional quarter-turn sequence for the type; the
/// rotation operations walk this list circularly. Types whose quarter turns
/// repeat after two steps keep only the two distinct states, and the square
/// keeps its single one.
pub open spec fn spec_patterns(t: Type) -> Seq<Pattern> {
    match t {
        Type::I_BLOCK => seq![0x2222u16, 0xF000u16],
        Type::O_BLOCK => seq![0x6600u16],
        Type::L_BLOCK => seq![0x6220u16, 0x2E00u16, 0x4460u16, 0xE800u16],
        Type::J_BLOCK => seq![0x6440u16, 0x4700u16, 0x2260u16, 0x7100u16],
        Type::T_BLOCK => seq![0xE400u16, 0x4640u16, 0x04E0u16, 0x2620u16],
        Type::S_BLOCK => seq![0x3600u16, 0x4620u16],
        Type::Z_BLOCK => seq![0x6300u16, 0x2640u16],
    }
}

/// How many rotation states a piece type has.
pub open spec fn spec_num_patterns(t: Type) -> nat {
    spec_patterns(t).len()
}

/// Every type has between one and four rotation states.
pub proof fn lemma_num_patterns_pos(t: Type)
    ensures
        1 <= spec_num_patterns(t) <= 4,
{
    match t {
        Type::I_BLOCK => assert(spec_num_patterns(Type::I_BLOCK) == 2),
        Type::O_BLOCK => assert(spec_num_patterns(Type::O_BLOCK) == 1),
        Type::L_BLOCK => assert(spec_num_patterns(Type::L_BLOCK) == 4),
        Type::J_BLOCK => assert(spec_num_patterns(Type::J_BLOCK) == 4),
        Type::T_BLOCK => assert(spec_num_patterns(Type::T_BLOCK) == 4),
        Type::S_BLOCK => assert(spec_num_patterns(Type::S_BLOCK) == 2),
        Type::Z_BLOCK => assert(spec_num_patterns(Type::Z_BLOCK) == 2),
    }
}

/// Catalog lookup: the ordered list of rotation-state masks of a type.
pub fn type_to_patterns(t_type: Type) -> (pats: Vec<Pattern>)
    ensures
        pats@ == spec_patterns(t_type),
{
    let mut pats: Vec<Pattern> = Vec::new();
    match t_type {
        Type::I_BLOCK => {
            pats.push(0x2222);
            pats.push(0xF000);
        },
        Type::O_BLOCK => {
            pats.push(0x6600);
        },
        Type::L_BLOCK => {
            pats.push(0x6220);
            pats.push(0x2E00);
            pats.push(0x4460);
            pats.push(0xE800);
        },
        Type::J_BLOCK => {
            pats.push(0x6440);
            pats.push(0x4700);
            pats.push(0x2260);
            pats.push(0x7100);
        },
        Type::T_BLOCK => {
            pats.push(0xE400);
            pats.push(0x4640);
            pats.push(0x04E0);
            pats.push(0x2620);
        },
        Type::S_BLOCK => {
            pats.push(0x3600);
            pats.push(0x4620);
        },
        Type::Z_BLOCK => {
            pats.push(0x6300);
            pats.push(0x2640);
        },
    }
    proof {
        assert(pats@ =~= spec_patterns(t_type));
    }
    pats
}

/// A falling piece: its type, the anchor (top-left corner of its 4x4
/// bounding box, possibly off the grid, columns even negative), and the
/// index of its current rotation state.
#[derive(Clone, Copy, Debug, PartialEq, Eq, Structural)]
pub struct Tetromino {
    pub i: isize,
    pub j: isize,
    pub t_type: Type,
    pub selected_pattern: usize,
}

/// The rotation index after one backward step through the catalog list:
/// index 0 wraps to the last state.
pub open spec fn spec_rotate_back(sp: nat, n: nat) -> nat {
    if sp == 0 {
        (n - 1) as nat
    } else {
        (sp - 1) as nat
    }
}

/// The rotation index after one forward step through the catalog list:
/// the last state wraps to index 0.
pub open spec fn spec_rotate_fwd(sp: nat, n: nat) -> nat {
    if sp + 1 >= n {
        0
    } else {
        sp + 1
    }
}

/// The rotation index after `k` backward steps.
pub open spec fn rotate_back_iter(sp: nat, n: nat, k: nat) -> nat
    decreases k,
{
    if k == 0 {
        sp
    } else {
        spec_rotate_back(rotate_back_iter(sp, n, (k - 1) as nat), n)
    }
}

proof fn lemma_rotate_back_iter_value(sp: nat, n: nat, k: nat)
    requires
        sp < n,
        k <= n,
    ensures
        rotate_back_iter(sp, n, k) == if k <= sp {
            (sp - k) as nat
        } else {
            ((sp + n) - k) as nat
        },
    decreases k,
{
    if k > 0 {
        lemma_rotate_back_iter_value(sp, n, (k - 1) as nat);
    }
}

/// Law: stepping the rotation index backward once for every rotation state
/// of the type returns the piece to its original rotation index.
pub proof fn lemma_rotation_cycle(sp: nat, n: nat)
    requires
        sp < n,
    ensures
        rotate_back_iter(sp, n, n) == sp,
{
    lemma_rotate_back_iter_value(sp, n, n);
}

/// Relies on `rand::thread_rng` and `rand::Rng::gen_range`: draws a value
/// uniformly from the half-open range below `n`; `gen_range` panics only on
/// an empty range, which `1 <= n` rules out.
#[verifier::external_body]
fn random_below(n: usize) -> (r: usize)
    requires
        1 <= n,
    ensures
        r < n,
{
    rand::thread_rng().gen_range(0..n)
}

/// The piece type standing at position `k` of the catalog.
pub open spec fn spec_type_at(k: int) -> Type {
    if k == 0 {
        Type::I_BLOCK
    } else if k == 1 {
        Type::O_BLOCK
    } else if k == 2 {
        Type::L_BLOCK
    } else if k == 3 {
        Type::J_BLOCK
    } else if k == 4 {
        Type::T_BLOCK
    } else if k == 5 {
        Type::S_BLOCK
    } else {
        Type::Z_BLOCK
    }
}

fn type_at(k: usize) -> (t: Type)
    ensures
        t == spec_type_at(k as int),
{
    match k {
        0 => Type::I_BLOCK,
        1 => Type::O_BLOCK,
        2 => Type::L_BLOCK,
        3 => Type::J_BLOCK,
        4 => Type::T_BLOCK,
        5 => Type::S_BLOCK,
        _ => Type::Z_BLOCK,
    }
}

impl Type {
    /// A type drawn uniformly from the catalog's seven entries.
    fn random_type() -> Type {
        type_at(random_below(7))
    }
}

impl Tetromino {
    /// The rotation index is a valid position in the type's catalog list.
    pub open spec fn wf(self) -> bool {
        (self.selected_pattern as nat) < spec_num_patterns(self.t_type)
    }

    /// A piece of a uniformly drawn type at the fixed spawn anchor.
    pub fn random() -> (t: Tetromino)
        ensures
            t.i == 2,
            t.j == 2,
            t.selected_pattern == 0,
            t.wf(),
    {
        let t_type = Type::random_type();
        proof {
            lemma_num_patterns_pos(t_type);
        }
        Tetromino { i: 2, j: 2, t_type, selected_pattern: 0 }
    }

    /// A piece of the given type at the given anchor, in its first rotation
    /// state.
    pub fn new(t_type: Type, i: isize, j: isize) -> (t: Tetromino)
        ensures
            t.i == i,
            t.j == j,
            t.t_type == t_type,
            t.selected_pattern == 0,
            t.wf(),
    {
        proof {
            lemma_num_patterns_pos(t_type);
        }
        Tetromino { i, j, t_type, selected_pattern: 0 }
    }

    /// A placeholder piece parked far off the grid. It carries the first
    /// catalog type so that its rotation index stays valid.
    pub fn null() -> (t: Tetromino)
        ensures
            t.i == -100,
            t.j == -100,
            t.t_type == Type::I_BLOCK,
            t.selected_pattern == 0,
            t.wf(),
    {
        Tetromino { i: -100, j: -100, t_type: Type::I_BLOCK, selected_pattern: 0 }
    }

    fn rotate(&mut self, direction: isize)
        requires
            old(self).wf(),
            direction == -1 || direction == 1,
        ensures
            final(self).i == old(self).i,
            final(self).j == old(self).j,
            final(self).t_type == old(self).t_type,
            final(self).selected_pattern as nat == if direction == 1 {
                spec_rotate_fwd(
                    old(self).selected_pattern as nat,
                    spec_num_patterns(old(self).t_type),
                )
            } else {
                spec_rotate_back(
                    old(self).selected_pattern as nat,
                    spec_num_patterns(old(self).t_type),
                )
            },
            final(self).wf(),
    {
        proof {
            lemma_num_patterns_pos(self.t_type);
        }
        let pats = type_to_patterns(self.t_type);
        let len = pats.len();
        let mut next_pattern: isize = self.selected_pattern as isize + direction;

        if next_pattern >= len as isize {
            next_pattern = 0;
        }

        if next_pattern < 0 {
            next_pattern = len as isize - 1;
        }

        self.selected_pattern = next_pattern as usize;
    }

    /// The anchor moves one row down.
    pub fn move_down(&mut self)
        requires
            old(self).i < isize::MAX,
        ensures
            final(self).i == old(self).i + 1,
            final(self).j == old(self).j,
            final(self).t_type == old(self).t_type,
            final(self).selected_pattern == old(self).selected_pattern,
    {
        self.i = self.i + 1;
    }

    /// The anchor moves one column left, except that a piece already at
    /// column 0 stays there: the piece itself clamps against the left wall,
    /// on top of the grid-level collision check.
    pub fn move_left(&mut self)
        requires
            isize::MIN < old(self).j,
        ensures
            final(self).j == if old(self).j == 0 {
                0int
            } else {
                old(self).j - 1
            },
            final(self).i == old(self).i,
            final(self).t_type == old(self).t_type,
            final(self).selected_pattern == old(self).selected_pattern,
    {
        if self.j == 0 {
            return ;
        }
        self.j = self.j - 1;
    }

    /// The anchor moves one column right; there is no symmetric clamp, the
    /// grid-level collision check alone guards the right wall.
    pub fn move_right(&mut self)
        requires
            old(self).j < isize::MAX,
        ensures
            final(self).j == old(self).j + 1,
            final(self).i == old(self).i,
            final(self).t_type == old(self).t_type,
            final(self).selected_pattern == old(self).selected_pattern,
    {
        self.j = self.j + 1;
    }

    /// One backward step through the rotation states.
    pub fn rotate_left(&mut self)
        requires
            old(self).wf(),
        ensures
            final(self).i == old(self).i,
            final(self).j == old(self).j,
            final(self).t_type == old(self).t_type,
            final(self).selected_pattern as nat == spec_rotate_back(
                old(self).selected_pattern as nat,
                spec_num_patterns(old(self).t_type),
            ),
            final(self).wf(),
    {
        self.rotate(-1);
    }

    /// One forward step through the rotation states.
    pub fn rotate_right(&mut self)
        requires
            old(self).wf(),
        ensures
            final(self).i == old(self).i,
            final(self).j == old(self).j,
            final(self).t_type == old(self).t_type,
            final(self).selected_pattern as nat == spec_rotate_fwd(
                old(self).selected_pattern as nat,
                spec_num_patterns(old(self).t_type),
            ),
            final(self).wf(),
    {
        self.rotate(1);
    }

    /// The mask of the piece's current rotation state.
    pub fn actual_rotation(&self) -> (p: Pattern)
        requires
            self.wf(),
        ensures
            p == spec_patterns(self.t_type)[self.selected_pattern as int],
    {
        let pats = type_to_patterns(self.t_type);
        pats[self.selected_pattern]
    }
}

} // verus!
