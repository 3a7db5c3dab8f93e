//! Precomputed square masks: single squares, lines, piece attacks, pawn structure
//! and the sliding-attack tables indexed by line occupancy.
use vstd::prelude::*;
use crate::bits::{has_bit, single, lemma_or_bit, lemma_single_bit, lemma_zero_bit, lemma_eq_by_bits};
use crate::mov_tbl::step;
use crate::slide::{is_slide_table, slide_table, pattern_blocks, line_board, lemma_walk_pat_board};
use crate::mov_tbl::{ray_len, ray_sq, lemma_ray_on_board};
use crate::util::{kg_rank_diag, kg_file};

verus! {

pub const SLIDE_ATTACK_PERM_COUNT: usize = 256;

pub struct BitMask {
    pub index_masks: [u64; 64],
    pub rank_masks: [u64; 64],
    pub file_masks: [u64; 64],
    pub diag_up_masks: [u64; 64],
    pub diag_down_masks: [u64; 64],

    pub wp_forward_masks: [u64; 64],
    pub bp_forward_masks: [u64; 64],
    pub wp_behind_masks: [u64; 64],
    pub bp_behind_masks: [u64; 64],

    pub wp_attack_masks: [u64; 64],
    pub bp_attack_masks: [u64; 64],

    pub wp_mov_masks: [u64; 64],
    pub bp_mov_masks: [u64; 64],

    pub wp_init_mov_masks: [u64; 64],
    pub bp_init_mov_masks: [u64; 64],

    pub wp_front_control_sqr_masks: [u64; 64],
    pub bp_front_control_sqr_masks: [u64; 64],
    pub wp_connected_sqr_masks: [u64; 64],
    pub bp_connected_sqr_masks: [u64; 64],

    pub n_attack_masks: [u64; 64],
    pub k_attack_masks: [u64; 64],

    pub up_attack_masks: [u64; 64],
    pub down_attack_masks: [u64; 64],
    pub left_attack_masks: [u64; 64],
    pub right_attack_masks: [u64; 64],

    pub up_left_attack_masks: [u64; 64],
    pub up_right_attack_masks: [u64; 64],
    pub down_left_attack_masks: [u64; 64],
    pub down_right_attack_masks: [u64; 64],

    pub horizontal_attack_masks: Vec<Vec<u64>>,
    pub vertical_attack_masks: Vec<Vec<u64>>,
    pub diag_up_attack_masks: Vec<Vec<u64>>,
    pub diag_down_attack_masks: Vec<Vec<u64>>,

    pub wk_attack_zone_masks: [u64; 64],
    pub bk_attack_zone_masks: [u64; 64],

    pub b_cover_masks: [u64; 64],
}

/// The rising diagonal (a1-h8 direction) of a square, numbered 0..16.
pub open spec fn diag_up_id(i: int) -> int {
    (i / 8 + 16 - i % 8) % 16
}

/// The falling diagonal (a8-h1 direction) of a square, numbered 0..15.
pub open spec fn diag_down_id(i: int) -> int {
    i / 8 + i % 8
}

/// Every square mask is the single bit of its square.
pub open spec fn index_masks_ok(m: [u64; 64]) -> bool {
    forall|i: int| 0 <= i < 64 ==> #[trigger] m[i] == single(i)
}

/// `m[i]` holds exactly the squares `j` for which `rel(i, j)` holds.
pub open spec fn masks_are(m: [u64; 64], rel: spec_fn(int, int) -> bool) -> bool {
    forall|i: int, j: int| 0 <= i < 64 && 0 <= j < 64 ==> (#[trigger] has_bit(m[i], j) <==> rel(i, j))
}

pub open spec fn same_file(i: int, j: int) -> bool {
    i % 8 == j % 8
}

pub open spec fn same_rank(i: int, j: int) -> bool {
    i / 8 == j / 8
}

pub open spec fn same_diag_up(i: int, j: int) -> bool {
    diag_up_id(i) == diag_up_id(j)
}

pub open spec fn same_diag_down(i: int, j: int) -> bool {
    diag_down_id(i) == diag_down_id(j)
}


/// Ranks from square `i` up to square `j`.
pub open spec fn rank_diff(i: int, j: int) -> int {
    j / 8 - i / 8
}

/// Files from square `i` right to square `j`.
pub open spec fn file_diff(i: int, j: int) -> int {
    j % 8 - i % 8
}

pub open spec fn abs(x: int) -> int {
    if x < 0 { -x } else { x }
}

/// A knight on `i` attacks `j`.
pub open spec fn knight_rel(i: int, j: int) -> bool {
    let a = abs(rank_diff(i, j));
    let b = abs(file_diff(i, j));
    (a == 1 && b == 2) || (a == 2 && b == 1)
}

/// A king on `i` attacks `j`.
pub open spec fn king_rel(i: int, j: int) -> bool {
    abs(rank_diff(i, j)) <= 1 && abs(file_diff(i, j)) <= 1 && i != j
}

/// `j` lies on the ray from `i` in direction (`dr` ranks, `df` files), `i` excluded.
pub open spec fn ray_rel(i: int, j: int, dr: int, df: int) -> bool {
    let a = rank_diff(i, j);
    let b = file_diff(i, j);
    let n = if dr != 0 { step(dr, a) } else { step(df, b) };
    n >= 1 && a == step(dr, n) && b == step(df, n)
}

/// A white pawn on `i` attacks `j`.
pub open spec fn wp_attack_rel(i: int, j: int) -> bool {
    i < 56 && rank_diff(i, j) == 1 && abs(file_diff(i, j)) == 1
}

/// A black pawn on `i` attacks `j`.
pub open spec fn bp_attack_rel(i: int, j: int) -> bool {
    i >= 8 && rank_diff(i, j) == -1 && abs(file_diff(i, j)) == 1
}



/// A white pawn on `i` (off the last ranks) moves one square up to `j`.
pub open spec fn wp_mov_rel(i: int, j: int) -> bool {
    8 <= i < 56 && j == i + 8
}

pub open spec fn bp_mov_rel(i: int, j: int) -> bool {
    8 <= i < 56 && j == i - 8
}

/// A white pawn on its second rank moves two squares up to `j`.
pub open spec fn wp_init_mov_rel(i: int, j: int) -> bool {
    8 <= i < 16 && j == i + 16
}

pub open spec fn bp_init_mov_rel(i: int, j: int) -> bool {
    48 <= i < 56 && j == i - 16
}

/// `j` is ahead of a white pawn on `i`, on its file or a neighbouring one.
pub open spec fn wp_forward_rel(i: int, j: int) -> bool {
    rank_diff(i, j) > 0 && abs(file_diff(i, j)) <= 1
}

pub open spec fn bp_forward_rel(i: int, j: int) -> bool {
    rank_diff(i, j) < 0 && abs(file_diff(i, j)) <= 1
}

/// `j` is level with or behind a white pawn on `i`, on a neighbouring file.
pub open spec fn wp_behind_rel(i: int, j: int) -> bool {
    rank_diff(i, j) <= 0 && abs(file_diff(i, j)) == 1
}

pub open spec fn bp_behind_rel(i: int, j: int) -> bool {
    rank_diff(i, j) >= 0 && abs(file_diff(i, j)) == 1
}

/// A white pawn on `j` is beside or defends a white pawn on `i`.
pub open spec fn wp_connected_rel(i: int, j: int) -> bool {
    8 <= i < 56 && abs(file_diff(i, j)) == 1 && (rank_diff(i, j) == 0 || rank_diff(i, j) == -1)
}

pub open spec fn bp_connected_rel(i: int, j: int) -> bool {
    8 <= i < 56 && abs(file_diff(i, j)) == 1 && (rank_diff(i, j) == 0 || rank_diff(i, j) == 1)
}

/// The squares two ranks ahead of a white pawn on `i`, on its file or a neighbouring one.
pub open spec fn wp_front_control_rel(i: int, j: int) -> bool {
    8 <= i < 48 && rank_diff(i, j) == 2 && abs(file_diff(i, j)) <= 1
}

pub open spec fn bp_front_control_rel(i: int, j: int) -> bool {
    16 <= i < 56 && rank_diff(i, j) == -2 && abs(file_diff(i, j)) <= 1
}

/// The zone in front of a white king on `i` (below the sixth rank): its neighbours and
/// the squares two ranks up on its file and the neighbouring ones.
pub open spec fn wk_zone_rel(i: int, j: int) -> bool {
    i < 48 && (king_rel(i, j) || ((rank_diff(i, j) == 1 || rank_diff(i, j) == 2) && abs(file_diff(i, j)) <= 1))
}

pub open spec fn bk_zone_rel(i: int, j: int) -> bool {
    i >= 16 && (king_rel(i, j) || ((rank_diff(i, j) == -1 || rank_diff(i, j) == -2) && abs(file_diff(i, j)) <= 1))
}

/// The squares a bishop on `i` sees on an empty board.
pub open spec fn b_cover_rel(i: int, j: int) -> bool {
    i != j && abs(rank_diff(i, j)) == abs(file_diff(i, j))
}

/// `mask` with square `sq` added.
fn add_sq(mask: u64, sq: usize) -> (r: u64)
    requires
        sq < 64,
    ensures
        r == mask | single(sq as int),
        forall|j: int| #[trigger] has_bit(r, j) == (has_bit(mask, j) || j == sq),
{
    let r = mask | (1u64 << sq as u64);
    assert(r == mask | single(sq as int));
    assert forall|j: int| #[trigger] has_bit(r, j) == (has_bit(mask, j) || j == sq) by {
        lemma_or_bit(mask, single(sq as int), j);
        lemma_single_bit(sq as int, j);
    }
    r
}


/// How many steps in direction (`dr`, `df`) lead from `i` to `j` (meaningful when `ray_rel` holds).
pub open spec fn ray_dist(i: int, j: int, dr: int, df: int) -> int {
    if dr != 0 { step(dr, rank_diff(i, j)) } else { step(df, file_diff(i, j)) }
}


proof fn lemma_ray_point(i: int, j: int, dr: int, df: int, n: int)
    requires
        0 <= i < 64,
        0 <= j < 64,
        -1 <= dr <= 1,
        -1 <= df <= 1,
        dr != 0 || df != 0,
        n >= 1,
        0 <= i / 8 + step(dr, n) < 8,
        0 <= i % 8 + step(df, n) < 8,
    ensures
        (ray_rel(i, j, dr, df) && ray_dist(i, j, dr, df) == n)
            <==> j == (i / 8 + step(dr, n)) * 8 + i % 8 + step(df, n),
{
    assert(j == 8 * (j / 8) + j % 8);
    assert(i == 8 * (i / 8) + i % 8);
    let t = (i / 8 + step(dr, n)) * 8 + i % 8 + step(df, n);
    if j == t {
        assert(j / 8 == i / 8 + step(dr, n));
        assert(j % 8 == i % 8 + step(df, n));
    }
}

/// The squares of the ray from `index` in direction (`dr`, `df`), up to the edge.
fn ray_mask(index: usize, dr: i8, df: i8) -> (r: u64)
    requires
        index < 64,
        -1 <= dr <= 1,
        -1 <= df <= 1,
        dr != 0 || df != 0,
    ensures
        forall|j: int| 0 <= j < 64 ==> (#[trigger] has_bit(r, j) <==> ray_rel(index as int, j, dr as int, df as int)),
{
    let r0: i8 = (index / 8) as i8;
    let f0: i8 = (index % 8) as i8;
    let mut rk: i8 = r0 + dr;
    let mut fl: i8 = f0 + df;
    let mut n: i8 = 1;
    let mut m: u64 = 0;
    proof { assert forall|j: int| !#[trigger] has_bit(m, j) by { lemma_zero_bit(j); } }
    while 0 <= rk && rk < 8 && 0 <= fl && fl < 8
        invariant
            -1 <= dr <= 1,
            -1 <= df <= 1,
            dr != 0 || df != 0,
            index < 64,
            r0 == index / 8,
            f0 == index % 8,
            1 <= n <= 8,
            rk == r0 + step(dr as int, n as int),
            fl == f0 + step(df as int, n as int),
            forall|j: int| 0 <= j < 64 ==> (#[trigger] has_bit(m, j) <==>
                (ray_rel(index as int, j, dr as int, df as int) && ray_dist(index as int, j, dr as int, df as int) < n)),
        decreases 8 - n,
    {
        let sq = (rk * 8 + fl) as usize;
        let ghost m0 = m;
        m = add_sq(m, sq);
        proof {
            assert forall|j: int| 0 <= j < 64 implies (#[trigger] has_bit(m, j) <==>
                (ray_rel(index as int, j, dr as int, df as int) && ray_dist(index as int, j, dr as int, df as int) < n + 1)) by {
                lemma_ray_point(index as int, j, dr as int, df as int, n as int);
                assert(has_bit(m0, j) <==> (ray_rel(index as int, j, dr as int, df as int) && ray_dist(index as int, j, dr as int, df as int) < n));
            }
        }
        rk = rk + dr;
        fl = fl + df;
        n = n + 1;
    }
    proof {
        assert forall|j: int| 0 <= j < 64 && #[trigger] ray_rel(index as int, j, dr as int, df as int)
            implies ray_dist(index as int, j, dr as int, df as int) < n by {
            assert(j == 8 * (j / 8) + j % 8);
            assert(index == 8 * (index / 8) + index % 8);
        }
    }
    m
}

impl BitMask {
    /// The line masks and the single-square masks are what their names say.
    pub open spec fn base_ok(&self) -> bool {
        &&& index_masks_ok(self.index_masks)
        &&& masks_are(self.file_masks, |i: int, j: int| same_file(i, j))
        &&& masks_are(self.rank_masks, |i: int, j: int| same_rank(i, j))
        &&& masks_are(self.diag_up_masks, |i: int, j: int| same_diag_up(i, j))
        &&& masks_are(self.diag_down_masks, |i: int, j: int| same_diag_down(i, j))
    }


    /// The eight ray masks hold, for each square, the squares of the ray up to the edge.
    pub open spec fn rays_ok(&self) -> bool {
        &&& masks_are(self.up_attack_masks, |i: int, j: int| ray_rel(i, j, 1, 0))
        &&& masks_are(self.down_attack_masks, |i: int, j: int| ray_rel(i, j, -1, 0))
        &&& masks_are(self.left_attack_masks, |i: int, j: int| ray_rel(i, j, 0, -1))
        &&& masks_are(self.right_attack_masks, |i: int, j: int| ray_rel(i, j, 0, 1))
        &&& masks_are(self.up_left_attack_masks, |i: int, j: int| ray_rel(i, j, 1, -1))
        &&& masks_are(self.up_right_attack_masks, |i: int, j: int| ray_rel(i, j, 1, 1))
        &&& masks_are(self.down_left_attack_masks, |i: int, j: int| ray_rel(i, j, -1, -1))
        &&& masks_are(self.down_right_attack_masks, |i: int, j: int| ray_rel(i, j, -1, 1))
    }


    /// The pawn, knight and king masks are what their names say.
    pub open spec fn steps_ok(&self) -> bool {
        &&& masks_are(self.n_attack_masks, |i: int, j: int| knight_rel(i, j))
        &&& masks_are(self.k_attack_masks, |i: int, j: int| king_rel(i, j))
        &&& masks_are(self.wp_attack_masks, |i: int, j: int| wp_attack_rel(i, j))
        &&& masks_are(self.bp_attack_masks, |i: int, j: int| bp_attack_rel(i, j))
        &&& masks_are(self.wp_mov_masks, |i: int, j: int| wp_mov_rel(i, j))
        &&& masks_are(self.bp_mov_masks, |i: int, j: int| bp_mov_rel(i, j))
        &&& masks_are(self.wp_init_mov_masks, |i: int, j: int| wp_init_mov_rel(i, j))
        &&& masks_are(self.bp_init_mov_masks, |i: int, j: int| bp_init_mov_rel(i, j))
    }

    /// The pawn-structure, king-zone and bishop masks are what their names say.
    pub open spec fn structure_ok(&self) -> bool {
        &&& masks_are(self.wp_forward_masks, |i: int, j: int| wp_forward_rel(i, j))
        &&& masks_are(self.bp_forward_masks, |i: int, j: int| bp_forward_rel(i, j))
        &&& masks_are(self.wp_behind_masks, |i: int, j: int| wp_behind_rel(i, j))
        &&& masks_are(self.bp_behind_masks, |i: int, j: int| bp_behind_rel(i, j))
        &&& masks_are(self.wp_connected_sqr_masks, |i: int, j: int| wp_connected_rel(i, j))
        &&& masks_are(self.bp_connected_sqr_masks, |i: int, j: int| bp_connected_rel(i, j))
        &&& masks_are(self.wp_front_control_sqr_masks, |i: int, j: int| wp_front_control_rel(i, j))
        &&& masks_are(self.bp_front_control_sqr_masks, |i: int, j: int| bp_front_control_rel(i, j))
        &&& masks_are(self.wk_attack_zone_masks, |i: int, j: int| wk_zone_rel(i, j))
        &&& masks_are(self.bk_attack_zone_masks, |i: int, j: int| bk_zone_rel(i, j))
        &&& masks_are(self.b_cover_masks, |i: int, j: int| b_cover_rel(i, j))
    }

    /// The four sliding tables: by rank, by file and by the two diagonals.
    pub open spec fn tables_ok(&self) -> bool {
        &&& is_slide_table(self.horizontal_attack_masks@, 0, 1, false)
        &&& is_slide_table(self.vertical_attack_masks@, 1, 0, true)
        &&& is_slide_table(self.diag_up_attack_masks@, 1, 1, false)
        &&& is_slide_table(self.diag_down_attack_masks@, 1, -1, false)
    }

    /// Every mask and table holds what its name says.
    pub open spec fn wf(&self) -> bool {
        &&& self.base_ok()
        &&& self.rays_ok()
        &&& self.steps_ok()
        &&& self.structure_ok()
        &&& self.tables_ok()
    }

    pub fn new() -> (r: Self)
        ensures
            r.wf(),
    {
        let mut bitmask = BitMask {
            index_masks: [0; 64],
            rank_masks: [0; 64],
            file_masks: [0; 64],
            diag_up_masks: [0; 64],
            diag_down_masks: [0; 64],

            wp_forward_masks: [0; 64],
            bp_forward_masks: [0; 64],
            wp_behind_masks: [0; 64],
            bp_behind_masks: [0; 64],

            wp_attack_masks: [0; 64],
            bp_attack_masks: [0; 64],

            wp_mov_masks: [0; 64],
            bp_mov_masks: [0; 64],

            wp_init_mov_masks: [0; 64],
            bp_init_mov_masks: [0; 64],

            wp_front_control_sqr_masks: [0; 64],
            bp_front_control_sqr_masks: [0; 64],
            wp_connected_sqr_masks: [0; 64],
            bp_connected_sqr_masks: [0; 64],

            n_attack_masks: [0; 64],
            k_attack_masks: [0; 64],

            left_attack_masks: [0; 64],
            right_attack_masks: [0; 64],
            up_attack_masks: [0; 64],
            down_attack_masks: [0; 64],

            up_left_attack_masks: [0; 64],
            up_right_attack_masks: [0; 64],
            down_left_attack_masks: [0; 64],
            down_right_attack_masks: [0; 64],

            horizontal_attack_masks: Vec::new(),
            vertical_attack_masks: Vec::new(),
            diag_up_attack_masks: Vec::new(),
            diag_down_attack_masks: Vec::new(),

            wk_attack_zone_masks: [0; 64],
            bk_attack_zone_masks: [0; 64],

            b_cover_masks: [0; 64],
        };

        bitmask.init_base();

        bitmask.init_n_masks();
        bitmask.init_k_masks();

        bitmask.init_ray_masks();

        bitmask.init_horizontal_attack_masks();
        bitmask.init_vertical_attack_masks();
        bitmask.init_diag_up_attack_masks();
        bitmask.init_diag_down_attack_masks();

        bitmask.init_p_attack_masks();
        bitmask.init_p_mov_masks();
        bitmask.init_p_misc_masks();
        bitmask.init_p_endgame_masks();

        bitmask.init_k_safety_masks();

        bitmask.init_b_cover_masks();

        bitmask
    }

    fn init_horizontal_attack_masks(&mut self)
        ensures
            *final(self) == (BitMask { horizontal_attack_masks: final(self).horizontal_attack_masks, ..*old(self) }),
            is_slide_table(final(self).horizontal_attack_masks@, 0, 1, false),
    {
        self.horizontal_attack_masks = slide_table(0, 1, false);
    }

    fn init_vertical_attack_masks(&mut self)
        ensures
            *final(self) == (BitMask { vertical_attack_masks: final(self).vertical_attack_masks, ..*old(self) }),
            is_slide_table(final(self).vertical_attack_masks@, 1, 0, true),
    {
        self.vertical_attack_masks = slide_table(1, 0, true);
    }

    fn init_diag_up_attack_masks(&mut self)
        ensures
            *final(self) == (BitMask { diag_up_attack_masks: final(self).diag_up_attack_masks, ..*old(self) }),
            is_slide_table(final(self).diag_up_attack_masks@, 1, 1, false),
    {
        self.diag_up_attack_masks = slide_table(1, 1, false);
    }

    fn init_diag_down_attack_masks(&mut self)
        ensures
            *final(self) == (BitMask { diag_down_attack_masks: final(self).diag_down_attack_masks, ..*old(self) }),
            is_slide_table(final(self).diag_down_attack_masks@, 1, -1, false),
    {
        self.diag_down_attack_masks = slide_table(1, -1, false);
    }


    fn init_n_masks(&mut self)
        ensures
            *final(self) == (BitMask { n_attack_masks: final(self).n_attack_masks, ..*old(self) }),
            masks_are(final(self).n_attack_masks, |i: int, j: int| knight_rel(i, j)),
    {
        let mut index: usize = 0;
        while index < 64
            invariant
                index <= 64,
                *self == (BitMask { n_attack_masks: self.n_attack_masks, ..*old(self) }),
                forall|i: int, j: int| 0 <= i < index && 0 <= j < 64 ==>
                    (#[trigger] has_bit(self.n_attack_masks[i], j) <==> knight_rel(i, j)),
            decreases 64 - index,
        {
            let file = index % 8;
            let mut m: u64 = 0;
            proof { assert forall|j: int| !#[trigger] has_bit(m, j) by { lemma_zero_bit(j); } }
            if index + 6 < 64 && file > 1 { m = add_sq(m, index + 6); }
            if index >= 6 && file < 6 { m = add_sq(m, index - 6); }
            if index + 10 < 64 && file < 6 { m = add_sq(m, index + 10); }
            if index >= 10 && file > 1 { m = add_sq(m, index - 10); }
            if index + 15 < 64 && file > 0 { m = add_sq(m, index + 15); }
            if index >= 15 && file < 7 { m = add_sq(m, index - 15); }
            if index + 17 < 64 && file < 7 { m = add_sq(m, index + 17); }
            if index >= 17 && file > 0 { m = add_sq(m, index - 17); }
            assert forall|j: int| 0 <= j < 64 implies (#[trigger] has_bit(m, j) <==> knight_rel(index as int, j)) by {}
            self.n_attack_masks[index] = m;
            index = index + 1;
        }
    }

    fn init_k_masks(&mut self)
        ensures
            *final(self) == (BitMask { k_attack_masks: final(self).k_attack_masks, ..*old(self) }),
            masks_are(final(self).k_attack_masks, |i: int, j: int| king_rel(i, j)),
    {
        let mut index: usize = 0;
        while index < 64
            invariant
                index <= 64,
                *self == (BitMask { k_attack_masks: self.k_attack_masks, ..*old(self) }),
                forall|i: int, j: int| 0 <= i < index && 0 <= j < 64 ==>
                    (#[trigger] has_bit(self.k_attack_masks[i], j) <==> king_rel(i, j)),
            decreases 64 - index,
        {
            let file = index % 8;
            let mut m: u64 = 0;
            proof { assert forall|j: int| !#[trigger] has_bit(m, j) by { lemma_zero_bit(j); } }
            if index + 1 < 64 && file < 7 { m = add_sq(m, index + 1); }
            if index >= 1 && file > 0 { m = add_sq(m, index - 1); }
            if index + 8 < 64 { m = add_sq(m, index + 8); }
            if index >= 8 { m = add_sq(m, index - 8); }
            if index + 7 < 64 && file > 0 { m = add_sq(m, index + 7); }
            if index >= 7 && file < 7 { m = add_sq(m, index - 7); }
            if index + 9 < 64 && file < 7 { m = add_sq(m, index + 9); }
            if index >= 9 && file > 0 { m = add_sq(m, index - 9); }
            assert forall|j: int| 0 <= j < 64 implies (#[trigger] has_bit(m, j) <==> king_rel(index as int, j)) by {}
            self.k_attack_masks[index] = m;
            index = index + 1;
        }
    }

    fn init_p_attack_masks(&mut self)
        ensures
            *final(self) == (BitMask { wp_attack_masks: final(self).wp_attack_masks,
                bp_attack_masks: final(self).bp_attack_masks, ..*old(self) }),
            masks_are(final(self).wp_attack_masks, |i: int, j: int| wp_attack_rel(i, j)),
            masks_are(final(self).bp_attack_masks, |i: int, j: int| bp_attack_rel(i, j)),
    {
        let mut index: usize = 0;
        while index < 64
            invariant
                index <= 64,
                *self == (BitMask { wp_attack_masks: self.wp_attack_masks,
                    bp_attack_masks: self.bp_attack_masks, ..*old(self) }),
                forall|i: int, j: int| 0 <= i < index && 0 <= j < 64 ==>
                    (#[trigger] has_bit(self.wp_attack_masks[i], j) <==> wp_attack_rel(i, j)),
                forall|i: int, j: int| 0 <= i < index && 0 <= j < 64 ==>
                    (#[trigger] has_bit(self.bp_attack_masks[i], j) <==> bp_attack_rel(i, j)),
            decreases 64 - index,
        {
            let file = index % 8;
            let mut w: u64 = 0;
            let mut b: u64 = 0;
            proof {
                assert forall|j: int| !#[trigger] has_bit(w, j) by { lemma_zero_bit(j); }
            }
            if file > 0 {
                if index < 56 { w = add_sq(w, index + 7); }
                if index > 7 { b = add_sq(b, index - 9); }
            }
            if file < 7 {
                if index < 56 { w = add_sq(w, index + 9); }
                if index > 7 { b = add_sq(b, index - 7); }
            }
            assert forall|j: int| 0 <= j < 64 implies (#[trigger] has_bit(w, j) <==> wp_attack_rel(index as int, j)) by {}
            assert forall|j: int| 0 <= j < 64 implies (#[trigger] has_bit(b, j) <==> bp_attack_rel(index as int, j)) by {}
            self.wp_attack_masks[index] = w;
            self.bp_attack_masks[index] = b;
            index = index + 1;
        }
    }


    fn init_ray_masks(&mut self)
        ensures
            *final(self) == (BitMask {
                up_attack_masks: final(self).up_attack_masks,
                down_attack_masks: final(self).down_attack_masks,
                left_attack_masks: final(self).left_attack_masks,
                right_attack_masks: final(self).right_attack_masks,
                up_left_attack_masks: final(self).up_left_attack_masks,
                up_right_attack_masks: final(self).up_right_attack_masks,
                down_left_attack_masks: final(self).down_left_attack_masks,
                down_right_attack_masks: final(self).down_right_attack_masks,
                ..*old(self) }),
            final(self).rays_ok(),
    {
        let mut index: usize = 0;
        while index < 64
            invariant
                index <= 64,
                *self == (BitMask {
                    up_attack_masks: self.up_attack_masks,
                    down_attack_masks: self.down_attack_masks,
                    left_attack_masks: self.left_attack_masks,
                    right_attack_masks: self.right_attack_masks,
                    up_left_attack_masks: self.up_left_attack_masks,
                    up_right_attack_masks: self.up_right_attack_masks,
                    down_left_attack_masks: self.down_left_attack_masks,
                    down_right_attack_masks: self.down_right_attack_masks,
                    ..*old(self) }),
                forall|i: int, j: int| 0 <= i < index && 0 <= j < 64 ==>
                    (#[trigger] has_bit(self.up_attack_masks[i], j) <==> ray_rel(i, j, 1, 0)),
                forall|i: int, j: int| 0 <= i < index && 0 <= j < 64 ==>
                    (#[trigger] has_bit(self.down_attack_masks[i], j) <==> ray_rel(i, j, -1, 0)),
                forall|i: int, j: int| 0 <= i < index && 0 <= j < 64 ==>
                    (#[trigger] has_bit(self.left_attack_masks[i], j) <==> ray_rel(i, j, 0, -1)),
                forall|i: int, j: int| 0 <= i < index && 0 <= j < 64 ==>
                    (#[trigger] has_bit(self.right_attack_masks[i], j) <==> ray_rel(i, j, 0, 1)),
                forall|i: int, j: int| 0 <= i < index && 0 <= j < 64 ==>
                    (#[trigger] has_bit(self.up_left_attack_masks[i], j) <==> ray_rel(i, j, 1, -1)),
                forall|i: int, j: int| 0 <= i < index && 0 <= j < 64 ==>
                    (#[trigger] has_bit(self.up_right_attack_masks[i], j) <==> ray_rel(i, j, 1, 1)),
                forall|i: int, j: int| 0 <= i < index && 0 <= j < 64 ==>
                    (#[trigger] has_bit(self.down_left_attack_masks[i], j) <==> ray_rel(i, j, -1, -1)),
                forall|i: int, j: int| 0 <= i < index && 0 <= j < 64 ==>
                    (#[trigger] has_bit(self.down_right_attack_masks[i], j) <==> ray_rel(i, j, -1, 1)),
            decreases 64 - index,
        {
            self.up_attack_masks[index] = ray_mask(index, 1, 0);
            self.down_attack_masks[index] = ray_mask(index, -1, 0);
            self.left_attack_masks[index] = ray_mask(index, 0, -1);
            self.right_attack_masks[index] = ray_mask(index, 0, 1);
            self.up_left_attack_masks[index] = ray_mask(index, 1, -1);
            self.up_right_attack_masks[index] = ray_mask(index, 1, 1);
            self.down_left_attack_masks[index] = ray_mask(index, -1, -1);
            self.down_right_attack_masks[index] = ray_mask(index, -1, 1);
            index = index + 1;
        }
    }


    fn init_p_mov_masks(&mut self)
        ensures
            *final(self) == (BitMask {
                wp_mov_masks: final(self).wp_mov_masks, bp_mov_masks: final(self).bp_mov_masks,
                wp_init_mov_masks: final(self).wp_init_mov_masks, bp_init_mov_masks: final(self).bp_init_mov_masks,
                ..*old(self) }),
            masks_are(final(self).wp_mov_masks, |i: int, j: int| wp_mov_rel(i, j)),
            masks_are(final(self).bp_mov_masks, |i: int, j: int| bp_mov_rel(i, j)),
            masks_are(final(self).wp_init_mov_masks, |i: int, j: int| wp_init_mov_rel(i, j)),
            masks_are(final(self).bp_init_mov_masks, |i: int, j: int| bp_init_mov_rel(i, j)),
    {
        let mut index: usize = 0;
        while index < 64
            invariant
                index <= 64,
                *self == (BitMask {
                    wp_mov_masks: self.wp_mov_masks, bp_mov_masks: self.bp_mov_masks,
                    wp_init_mov_masks: self.wp_init_mov_masks, bp_init_mov_masks: self.bp_init_mov_masks,
                    ..*old(self) }),
                forall|i: int, j: int| 0 <= i < index && 0 <= j < 64 ==> (#[trigger] has_bit(self.wp_mov_masks[i], j) <==> wp_mov_rel(i, j)),
                forall|i: int, j: int| 0 <= i < index && 0 <= j < 64 ==> (#[trigger] has_bit(self.bp_mov_masks[i], j) <==> bp_mov_rel(i, j)),
                forall|i: int, j: int| 0 <= i < index && 0 <= j < 64 ==> (#[trigger] has_bit(self.wp_init_mov_masks[i], j) <==> wp_init_mov_rel(i, j)),
                forall|i: int, j: int| 0 <= i < index && 0 <= j < 64 ==> (#[trigger] has_bit(self.bp_init_mov_masks[i], j) <==> bp_init_mov_rel(i, j)),
            decreases 64 - index,
        {
            let mut w: u64 = 0;
            let mut b: u64 = 0;
            let mut wi: u64 = 0;
            let mut bi: u64 = 0;
            proof { assert forall|j: int| !#[trigger] has_bit(0, j) by { lemma_zero_bit(j); } }
            if 8 <= index && index < 56 {
                w = add_sq(w, index + 8);
                b = add_sq(b, index - 8);
                if index < 16 {
                    wi = add_sq(wi, index + 16);
                }
                if index > 47 {
                    bi = add_sq(bi, index - 16);
                }
            }
            self.wp_mov_masks[index] = w;
            self.bp_mov_masks[index] = b;
            self.wp_init_mov_masks[index] = wi;
            self.bp_init_mov_masks[index] = bi;
            index = index + 1;
        }
    }

    /// From the rays of one vertical direction `dr`: the squares strictly that way from `index`
    /// on its file and the neighbouring ones, and the squares level or that way on the
    /// neighbouring files only.
    fn file_band_masks(rays: &[u64; 64], index: usize, dr: i8) -> (r: (u64, u64))
        requires
            index < 64,
            dr == 1 || dr == -1,
            masks_are(*rays, |i: int, j: int| ray_rel(i, j, dr as int, 0)),
        ensures
            forall|j: int| 0 <= j < 64 ==> (#[trigger] has_bit(r.0, j) <==>
                (step(dr as int, rank_diff(index as int, j)) > 0 && abs(file_diff(index as int, j)) <= 1)),
            forall|j: int| 0 <= j < 64 ==> (#[trigger] has_bit(r.1, j) <==>
                (step(dr as int, rank_diff(index as int, j)) >= 0 && abs(file_diff(index as int, j)) == 1)),
    {
        let ghost i = index as int;
        let ghost d = dr as int;
        let file = index % 8;
        let mut band: u64 = rays[index];
        let mut side: u64 = 0;
        proof {
            assert forall|j: int| !#[trigger] has_bit(0, j) by { lemma_zero_bit(j); }
            assert forall|j: int| 0 <= j < 64 implies (#[trigger] has_bit(band, j) <==>
                (step(d, rank_diff(i, j)) > 0 && file_diff(i, j) == 0)) by {
                assert(has_bit(rays[i], j) <==> ray_rel(i, j, d, 0));
            }
        }
        if file > 0 {
            let ghost band0 = band;
            let ghost side0 = side;
            let left = rays[index - 1];
            band = band | left;
            side = add_sq(side | left, index - 1);
            proof {
                assert((i - 1) / 8 == i / 8 && (i - 1) % 8 == i % 8 - 1);
                assert forall|j: int| 0 <= j < 64 implies (#[trigger] has_bit(band, j) <==>
                    (has_bit(band0, j) || (step(d, rank_diff(i, j)) > 0 && file_diff(i, j) == -1))) by {
                    lemma_or_bit(band0, left, j);
                    assert(has_bit(rays[i - 1], j) <==> ray_rel(i - 1, j, d, 0));
                }
                assert forall|j: int| 0 <= j < 64 implies (#[trigger] has_bit(side, j) <==>
                    (has_bit(side0, j) || (step(d, rank_diff(i, j)) >= 0 && file_diff(i, j) == -1))) by {
                    lemma_or_bit(side0, left, j);
                    assert(has_bit(rays[i - 1], j) <==> ray_rel(i - 1, j, d, 0));
                    assert(j == i - 1 ==> rank_diff(i, j) == 0 && file_diff(i, j) == -1);
                    assert(rank_diff(i, j) == 0 && file_diff(i, j) == -1 ==> j == i - 1) by {
                        assert(j == 8 * (j / 8) + j % 8);
                        assert(i == 8 * (i / 8) + i % 8);
                    }
                }
            }
        }
        if file < 7 {
            let ghost band0 = band;
            let ghost side0 = side;
            let right = rays[index + 1];
            band = band | right;
            side = add_sq(side | right, index + 1);
            proof {
                assert((i + 1) / 8 == i / 8 && (i + 1) % 8 == i % 8 + 1);
                assert forall|j: int| 0 <= j < 64 implies (#[trigger] has_bit(band, j) <==>
                    (has_bit(band0, j) || (step(d, rank_diff(i, j)) > 0 && file_diff(i, j) == 1))) by {
                    lemma_or_bit(band0, right, j);
                    assert(has_bit(rays[i + 1], j) <==> ray_rel(i + 1, j, d, 0));
                }
                assert forall|j: int| 0 <= j < 64 implies (#[trigger] has_bit(side, j) <==>
                    (has_bit(side0, j) || (step(d, rank_diff(i, j)) >= 0 && file_diff(i, j) == 1))) by {
                    lemma_or_bit(side0, right, j);
                    assert(has_bit(rays[i + 1], j) <==> ray_rel(i + 1, j, d, 0));
                    assert(j == i + 1 ==> rank_diff(i, j) == 0 && file_diff(i, j) == 1);
                    assert(rank_diff(i, j) == 0 && file_diff(i, j) == 1 ==> j == i + 1) by {
                        assert(j == 8 * (j / 8) + j % 8);
                        assert(i == 8 * (i / 8) + i % 8);
                    }
                }
            }
        }
        (band, side)
    }

    fn pawn_connected_masks(index: usize) -> (r: (u64, u64))
        requires
            index < 64,
        ensures
            forall|j: int| 0 <= j < 64 ==> (#[trigger] has_bit(r.0, j) <==> wp_connected_rel(index as int, j)),
            forall|j: int| 0 <= j < 64 ==> (#[trigger] has_bit(r.1, j) <==> bp_connected_rel(index as int, j)),
    {
        let file = index % 8;
        proof { assert forall|j: int| !#[trigger] has_bit(0, j) by { lemma_zero_bit(j); } }
        let mut wc: u64 = 0;
        let mut bc: u64 = 0;
        if 8 <= index && index < 56 {
            if file != 0 {
                wc = add_sq(wc, index - 1);
                wc = add_sq(wc, index - 9);
                bc = add_sq(bc, index - 1);
                bc = add_sq(bc, index + 7);
            }
            if file != 7 {
                wc = add_sq(wc, index + 1);
                wc = add_sq(wc, index - 7);
                bc = add_sq(bc, index + 1);
                bc = add_sq(bc, index + 9);
            }
        }
        (wc, bc)
    }

    fn init_p_misc_masks(&mut self)
        requires
            old(self).rays_ok(),
        ensures
            *final(self) == (BitMask {
                wp_forward_masks: final(self).wp_forward_masks, bp_forward_masks: final(self).bp_forward_masks,
                wp_behind_masks: final(self).wp_behind_masks, bp_behind_masks: final(self).bp_behind_masks,
                wp_connected_sqr_masks: final(self).wp_connected_sqr_masks,
                bp_connected_sqr_masks: final(self).bp_connected_sqr_masks,
                ..*old(self) }),
            masks_are(final(self).wp_forward_masks, |i: int, j: int| wp_forward_rel(i, j)),
            masks_are(final(self).bp_forward_masks, |i: int, j: int| bp_forward_rel(i, j)),
            masks_are(final(self).wp_behind_masks, |i: int, j: int| wp_behind_rel(i, j)),
            masks_are(final(self).bp_behind_masks, |i: int, j: int| bp_behind_rel(i, j)),
            masks_are(final(self).wp_connected_sqr_masks, |i: int, j: int| wp_connected_rel(i, j)),
            masks_are(final(self).bp_connected_sqr_masks, |i: int, j: int| bp_connected_rel(i, j)),
    {
        let mut index: usize = 0;
        while index < 64
            invariant
                index <= 64,
                self.rays_ok(),
                *self == (BitMask {
                    wp_forward_masks: self.wp_forward_masks, bp_forward_masks: self.bp_forward_masks,
                    wp_behind_masks: self.wp_behind_masks, bp_behind_masks: self.bp_behind_masks,
                    wp_connected_sqr_masks: self.wp_connected_sqr_masks,
                    bp_connected_sqr_masks: self.bp_connected_sqr_masks,
                    ..*old(self) }),
                forall|i: int, j: int| 0 <= i < index && 0 <= j < 64 ==> (#[trigger] has_bit(self.wp_forward_masks[i], j) <==> wp_forward_rel(i, j)),
                forall|i: int, j: int| 0 <= i < index && 0 <= j < 64 ==> (#[trigger] has_bit(self.bp_forward_masks[i], j) <==> bp_forward_rel(i, j)),
                forall|i: int, j: int| 0 <= i < index && 0 <= j < 64 ==> (#[trigger] has_bit(self.wp_behind_masks[i], j) <==> wp_behind_rel(i, j)),
                forall|i: int, j: int| 0 <= i < index && 0 <= j < 64 ==> (#[trigger] has_bit(self.bp_behind_masks[i], j) <==> bp_behind_rel(i, j)),
                forall|i: int, j: int| 0 <= i < index && 0 <= j < 64 ==> (#[trigger] has_bit(self.wp_connected_sqr_masks[i], j) <==> wp_connected_rel(i, j)),
                forall|i: int, j: int| 0 <= i < index && 0 <= j < 64 ==> (#[trigger] has_bit(self.bp_connected_sqr_masks[i], j) <==> bp_connected_rel(i, j)),
            decreases 64 - index,
        {
            let (wf, bb) = Self::file_band_masks(&self.up_attack_masks, index, 1);
            let (bf, wb) = Self::file_band_masks(&self.down_attack_masks, index, -1);
            let (wc, bc) = Self::pawn_connected_masks(index);
            self.wp_forward_masks[index] = wf;
            self.bp_forward_masks[index] = bf;
            self.wp_behind_masks[index] = wb;
            self.bp_behind_masks[index] = bb;
            self.wp_connected_sqr_masks[index] = wc;
            self.bp_connected_sqr_masks[index] = bc;
            index = index + 1;
        }
    }


    fn init_p_endgame_masks(&mut self)
        ensures
            *final(self) == (BitMask {
                wp_front_control_sqr_masks: final(self).wp_front_control_sqr_masks,
                bp_front_control_sqr_masks: final(self).bp_front_control_sqr_masks,
                ..*old(self) }),
            masks_are(final(self).wp_front_control_sqr_masks, |i: int, j: int| wp_front_control_rel(i, j)),
            masks_are(final(self).bp_front_control_sqr_masks, |i: int, j: int| bp_front_control_rel(i, j)),
    {
        let mut index: usize = 0;
        while index < 64
            invariant
                index <= 64,
                *self == (BitMask {
                    wp_front_control_sqr_masks: self.wp_front_control_sqr_masks,
                    bp_front_control_sqr_masks: self.bp_front_control_sqr_masks,
                    ..*old(self) }),
                forall|i: int, j: int| 0 <= i < index && 0 <= j < 64 ==> (#[trigger] has_bit(self.wp_front_control_sqr_masks[i], j) <==> wp_front_control_rel(i, j)),
                forall|i: int, j: int| 0 <= i < index && 0 <= j < 64 ==> (#[trigger] has_bit(self.bp_front_control_sqr_masks[i], j) <==> bp_front_control_rel(i, j)),
            decreases 64 - index,
        {
            let file = index % 8;
            let mut w: u64 = 0;
            let mut b: u64 = 0;
            proof { assert forall|j: int| !#[trigger] has_bit(0, j) by { lemma_zero_bit(j); } }
            if 8 <= index && index < 48 {
                w = add_sq(w, index + 16);
                if file != 0 { w = add_sq(w, index + 15); }
                if file != 7 { w = add_sq(w, index + 17); }
            }
            if 16 <= index && index < 56 {
                b = add_sq(b, index - 16);
                if file != 0 { b = add_sq(b, index - 17); }
                if file != 7 { b = add_sq(b, index - 15); }
            }
            proof {
                let i = index as int;
                assert forall|j: int| 0 <= j < 64 implies (#[trigger] has_bit(w, j) <==> wp_front_control_rel(i, j)) by {
                    assert(j == 8 * (j / 8) + j % 8);
                }
                assert forall|j: int| 0 <= j < 64 implies (#[trigger] has_bit(b, j) <==> bp_front_control_rel(i, j)) by {
                    assert(j == 8 * (j / 8) + j % 8);
                }
            }
            self.wp_front_control_sqr_masks[index] = w;
            self.bp_front_control_sqr_masks[index] = b;
            index = index + 1;
        }
    }

    /// The zone of one king on `index`: its neighbours (`k`) and the squares one and two ranks
    /// that way (`dr`) on its file and the neighbouring ones.
    fn king_zone(k: u64, index: usize, dr: i8) -> (r: u64)
        requires
            index < 64,
            dr == 1 || dr == -1,
            dr == 1 ==> index < 48,
            dr == -1 ==> index >= 16,
            forall|j: int| 0 <= j < 64 ==> (#[trigger] has_bit(k, j) <==> king_rel(index as int, j)),
        ensures
            forall|j: int| 0 <= j < 64 ==> (#[trigger] has_bit(r, j) <==> (king_rel(index as int, j)
                || ((step(dr as int, rank_diff(index as int, j)) == 1 || step(dr as int, rank_diff(index as int, j)) == 2)
                    && abs(file_diff(index as int, j)) <= 1))),
    {
        let file = index % 8;
        let mut z = k;
        if dr == 1 {
            z = add_sq(z, index + 8);
            z = add_sq(z, index + 16);
            if file != 0 {
                z = add_sq(z, index + 7);
                z = add_sq(z, index + 15);
            }
            if file != 7 {
                z = add_sq(z, index + 9);
                z = add_sq(z, index + 17);
            }
        } else {
            z = add_sq(z, index - 8);
            z = add_sq(z, index - 16);
            if file != 0 {
                z = add_sq(z, index - 9);
                z = add_sq(z, index - 17);
            }
            if file != 7 {
                z = add_sq(z, index - 7);
                z = add_sq(z, index - 15);
            }
        }
        proof {
            let i = index as int;
            assert forall|j: int| 0 <= j < 64 implies (#[trigger] has_bit(z, j) <==> (king_rel(i, j)
                || ((step(dr as int, rank_diff(i, j)) == 1 || step(dr as int, rank_diff(i, j)) == 2)
                    && abs(file_diff(i, j)) <= 1))) by {
                assert(j == 8 * (j / 8) + j % 8);
                assert(i == 8 * (i / 8) + i % 8);
            }
        }
        z
    }

    fn init_k_safety_masks(&mut self)
        requires
            masks_are(old(self).k_attack_masks, |i: int, j: int| king_rel(i, j)),
        ensures
            *final(self) == (BitMask {
                wk_attack_zone_masks: final(self).wk_attack_zone_masks,
                bk_attack_zone_masks: final(self).bk_attack_zone_masks,
                ..*old(self) }),
            masks_are(final(self).wk_attack_zone_masks, |i: int, j: int| wk_zone_rel(i, j)),
            masks_are(final(self).bk_attack_zone_masks, |i: int, j: int| bk_zone_rel(i, j)),
    {
        let mut index: usize = 0;
        while index < 64
            invariant
                index <= 64,
                masks_are(self.k_attack_masks, |i: int, j: int| king_rel(i, j)),
                *self == (BitMask {
                    wk_attack_zone_masks: self.wk_attack_zone_masks,
                    bk_attack_zone_masks: self.bk_attack_zone_masks,
                    ..*old(self) }),
                forall|i: int, j: int| 0 <= i < index && 0 <= j < 64 ==> (#[trigger] has_bit(self.wk_attack_zone_masks[i], j) <==> wk_zone_rel(i, j)),
                forall|i: int, j: int| 0 <= i < index && 0 <= j < 64 ==> (#[trigger] has_bit(self.bk_attack_zone_masks[i], j) <==> bk_zone_rel(i, j)),
            decreases 64 - index,
        {
            proof { assert forall|j: int| !#[trigger] has_bit(0, j) by { lemma_zero_bit(j); } }
            let k = self.k_attack_masks[index];
            proof {
                assert forall|j: int| 0 <= j < 64 implies (#[trigger] has_bit(k, j) <==> king_rel(index as int, j)) by {
                    assert(has_bit(self.k_attack_masks[index as int], j) <==> king_rel(index as int, j));
                }
            }
            let w = if index < 48 { Self::king_zone(k, index, 1) } else { 0 };
            let b = if index >= 16 { Self::king_zone(k, index, -1) } else { 0 };
            self.wk_attack_zone_masks[index] = w;
            self.bk_attack_zone_masks[index] = b;
            index = index + 1;
        }
    }

    fn init_b_cover_masks(&mut self)
        requires
            old(self).rays_ok(),
        ensures
            *final(self) == (BitMask { b_cover_masks: final(self).b_cover_masks, ..*old(self) }),
            masks_are(final(self).b_cover_masks, |i: int, j: int| b_cover_rel(i, j)),
    {
        let mut index: usize = 0;
        while index < 64
            invariant
                index <= 64,
                self.rays_ok(),
                *self == (BitMask { b_cover_masks: self.b_cover_masks, ..*old(self) }),
                forall|i: int, j: int| 0 <= i < index && 0 <= j < 64 ==> (#[trigger] has_bit(self.b_cover_masks[i], j) <==> b_cover_rel(i, j)),
            decreases 64 - index,
        {
            let ul = self.up_left_attack_masks[index];
            let ur = self.up_right_attack_masks[index];
            let dl = self.down_left_attack_masks[index];
            let dr = self.down_right_attack_masks[index];
            let c = ul | ur | dl | dr;
            proof {
                let i = index as int;
                assert forall|j: int| 0 <= j < 64 implies (#[trigger] has_bit(c, j) <==> b_cover_rel(i, j)) by {
                    lemma_or_bit(ul | ur | dl, dr, j);
                    lemma_or_bit(ul | ur, dl, j);
                    lemma_or_bit(ul, ur, j);
                    assert(has_bit(self.up_left_attack_masks[i], j) <==> ray_rel(i, j, 1, -1));
                    assert(has_bit(self.up_right_attack_masks[i], j) <==> ray_rel(i, j, 1, 1));
                    assert(has_bit(self.down_left_attack_masks[i], j) <==> ray_rel(i, j, -1, -1));
                    assert(has_bit(self.down_right_attack_masks[i], j) <==> ray_rel(i, j, -1, 1));
                }
            }
            self.b_cover_masks[index] = c;
            index = index + 1;
        }
    }

    fn init_base(&mut self)
        ensures
            final(self).base_ok(),
    {
        let mut file_masks: [u64; 8] = [0; 8];
        let mut rank_masks: [u64; 8] = [0; 8];
        let mut diag_up_masks: [u64; 16] = [0; 16];
        let mut diag_down_masks: [u64; 16] = [0; 16];

        proof {
            assert forall|f: int, j: int| 0 <= f < 16 implies !#[trigger] has_bit(diag_up_masks[f], j) by { lemma_zero_bit(j); }
            assert forall|f: int, j: int| 0 <= f < 16 implies !#[trigger] has_bit(diag_down_masks[f], j) by { lemma_zero_bit(j); }
            assert forall|f: int, j: int| 0 <= f < 8 implies !#[trigger] has_bit(file_masks[f], j) by { lemma_zero_bit(j); }
            assert forall|f: int, j: int| 0 <= f < 8 implies !#[trigger] has_bit(rank_masks[f], j) by { lemma_zero_bit(j); }
        }
        let mut index: usize = 0;
        while index < 64
            invariant
                index <= 64,
                forall|k: int| 0 <= k < index ==> #[trigger] self.index_masks[k] == single(k),
                forall|f: int, j: int| 0 <= f < 8 ==>
                    (#[trigger] has_bit(file_masks[f], j) <==> (0 <= j < index && j % 8 == f)),
                forall|f: int, j: int| 0 <= f < 8 ==>
                    (#[trigger] has_bit(rank_masks[f], j) <==> (0 <= j < index && j / 8 == f)),
                forall|f: int, j: int| 0 <= f < 16 ==>
                    (#[trigger] has_bit(diag_up_masks[f], j) <==> (0 <= j < index && diag_up_id(j) == f)),
                forall|f: int, j: int| 0 <= f < 16 ==>
                    (#[trigger] has_bit(diag_down_masks[f], j) <==> (0 <= j < index && diag_down_id(j) == f)),
            decreases 64 - index,
        {
            let index_mask = 1u64 << index;
            self.index_masks[index] = index_mask;

            let file = index % 8;
            let rank = index / 8;
            let diag_up = (rank + 16 - file) % 16;
            let diag_down = rank + file;

            let ghost fm0 = file_masks;
            let ghost rm0 = rank_masks;
            let ghost um0 = diag_up_masks;
            let ghost dm0 = diag_down_masks;
            file_masks[file] = file_masks[file] | index_mask;
            rank_masks[rank] = rank_masks[rank] | index_mask;
            diag_up_masks[diag_up] = diag_up_masks[diag_up] | index_mask;
            diag_down_masks[diag_down] = diag_down_masks[diag_down] | index_mask;

            proof {
                assert forall|f: int, j: int| 0 <= f < 8 implies
                    (#[trigger] has_bit(file_masks[f], j) <==> (0 <= j < index + 1 && j % 8 == f)) by {
                    lemma_or_bit(fm0[f], single(index as int), j);
                    lemma_single_bit(index as int, j);
                }
                assert forall|f: int, j: int| 0 <= f < 8 implies
                    (#[trigger] has_bit(rank_masks[f], j) <==> (0 <= j < index + 1 && j / 8 == f)) by {
                    lemma_or_bit(rm0[f], single(index as int), j);
                    lemma_single_bit(index as int, j);
                }
                assert forall|f: int, j: int| 0 <= f < 16 implies
                    (#[trigger] has_bit(diag_up_masks[f], j) <==> (0 <= j < index + 1 && diag_up_id(j) == f)) by {
                    lemma_or_bit(um0[f], single(index as int), j);
                    lemma_single_bit(index as int, j);
                }
                assert forall|f: int, j: int| 0 <= f < 16 implies
                    (#[trigger] has_bit(diag_down_masks[f], j) <==> (0 <= j < index + 1 && diag_down_id(j) == f)) by {
                    lemma_or_bit(dm0[f], single(index as int), j);
                    lemma_single_bit(index as int, j);
                }
            }
            index = index + 1;
        }

        let mut index: usize = 0;
        while index < 64
            invariant
                index <= 64,
                index_masks_ok(self.index_masks),
                forall|f: int, j: int| 0 <= f < 8 ==>
                    (#[trigger] has_bit(file_masks[f], j) <==> (0 <= j < 64 && j % 8 == f)),
                forall|f: int, j: int| 0 <= f < 8 ==>
                    (#[trigger] has_bit(rank_masks[f], j) <==> (0 <= j < 64 && j / 8 == f)),
                forall|f: int, j: int| 0 <= f < 16 ==>
                    (#[trigger] has_bit(diag_up_masks[f], j) <==> (0 <= j < 64 && diag_up_id(j) == f)),
                forall|f: int, j: int| 0 <= f < 16 ==>
                    (#[trigger] has_bit(diag_down_masks[f], j) <==> (0 <= j < 64 && diag_down_id(j) == f)),
                forall|i: int, j: int| 0 <= i < index && 0 <= j < 64 ==> (#[trigger] has_bit(self.file_masks[i], j) <==> same_file(i, j)),
                forall|i: int, j: int| 0 <= i < index && 0 <= j < 64 ==> (#[trigger] has_bit(self.rank_masks[i], j) <==> same_rank(i, j)),
                forall|i: int, j: int| 0 <= i < index && 0 <= j < 64 ==> (#[trigger] has_bit(self.diag_up_masks[i], j) <==> same_diag_up(i, j)),
                forall|i: int, j: int| 0 <= i < index && 0 <= j < 64 ==> (#[trigger] has_bit(self.diag_down_masks[i], j) <==> same_diag_down(i, j)),
            decreases 64 - index,
        {
            let file = index % 8;
            self.file_masks[index] = file_masks[file];

            let rank = index / 8;
            self.rank_masks[index] = rank_masks[rank];

            let diag_up = (rank + 16 - file) % 16;
            self.diag_up_masks[index] = diag_up_masks[diag_up];

            let diag_down = rank + file;
            self.diag_down_masks[index] = diag_down_masks[diag_down];

            index = index + 1;
        }
    }
}


pub const DIAG_UP_MAIN: u64 = 0x8040_2010_0804_0201;
pub const DIAG_DOWN_MAIN: u64 = 0x0102_0408_1020_4080;

proof fn bv_rank(x: u64, r: u64, f: u64, t: u64)
    requires
        r < 8,
        f < 8,
        t < 64,
    ensures
        (((0xffu64 << ((8 * r) as u64)) >> t) & 1 == 1) == (t / 8 == r),
        kg_rank_diag(x & (0xffu64 << ((8 * r) as u64))) < 256,
        (kg_rank_diag(x & (0xffu64 << ((8 * r) as u64))) >> f) & 1 == (x >> ((8 * r + f) as u64)) & 1,
{
    assert(
        ((((0xffu64 << ((8 * r) as u64)) >> t) & 1 == 1) == (t / 8 == r))
        && kg_rank_diag(x & (0xffu64 << ((8 * r) as u64))) < 256
        && (kg_rank_diag(x & (0xffu64 << ((8 * r) as u64))) >> f) & 1 == (x >> ((8 * r + f) as u64)) & 1
    ) by (bit_vector)
        requires r < 8, f < 8, t < 64;
}

proof fn bv_file(x: u64, s: u64, r: u64, t: u64)
    requires
        s < 64,
        r < 8,
        t < 64,
    ensures
        s & 7 == s % 8,
        (((0x0101_0101_0101_0101u64 << (s & 7)) >> t) & 1 == 1) == (t % 8 == s % 8),
        kg_file(x & (0x0101_0101_0101_0101u64 << (s & 7)), s as usize) < 256,
        (kg_file(x & (0x0101_0101_0101_0101u64 << (s & 7)), s as usize) >> ((7 - r) as u64)) & 1
            == (x >> ((8 * r + (s & 7)) as u64)) & 1,
{
    assert(
        s & 7 == s % 8
        && ((((0x0101_0101_0101_0101u64 << (s & 7)) >> t) & 1 == 1) == (t % 8 == s % 8))
        && kg_file(x & (0x0101_0101_0101_0101u64 << (s & 7)), s as usize) < 256
        && (kg_file(x & (0x0101_0101_0101_0101u64 << (s & 7)), s as usize) >> ((7 - r) as u64)) & 1
            == (x >> ((8 * r + (s & 7)) as u64)) & 1
    ) by (bit_vector)
        requires s < 64, r < 8, t < 64;
}

proof fn bv_diag_up_high(x: u64, k: u64, f: u64, t: u64)
    requires
        k < 8,
        f < 8,
        t < 64,
    ensures
        (((DIAG_UP_MAIN << ((8 * k) as u64)) >> t) & 1 == 1) == (t / 8 == t % 8 + k),
        kg_rank_diag(x & (DIAG_UP_MAIN << ((8 * k) as u64))) < 256,
        (kg_rank_diag(x & (DIAG_UP_MAIN << ((8 * k) as u64))) >> f) & 1
            == if f + k < 8 { (x >> ((9 * f + 8 * k) as u64)) & 1 } else { 0 },
{
    assert(
        ((((DIAG_UP_MAIN << ((8 * k) as u64)) >> t) & 1 == 1) == (t / 8 == t % 8 + k))
        && kg_rank_diag(x & (DIAG_UP_MAIN << ((8 * k) as u64))) < 256
        && (kg_rank_diag(x & (DIAG_UP_MAIN << ((8 * k) as u64))) >> f) & 1
            == if f + k < 8 { (x >> ((9 * f + 8 * k) as u64)) & 1 } else { 0 }
    ) by (bit_vector)
        requires k < 8, f < 8, t < 64;
}

proof fn bv_diag_up_low(x: u64, k: u64, f: u64, t: u64)
    requires
        k < 8,
        f < 8,
        t < 64,
    ensures
        (((DIAG_UP_MAIN >> ((8 * k) as u64)) >> t) & 1 == 1) == (t % 8 == t / 8 + k),
        kg_rank_diag(x & (DIAG_UP_MAIN >> ((8 * k) as u64))) < 256,
        (kg_rank_diag(x & (DIAG_UP_MAIN >> ((8 * k) as u64))) >> f) & 1
            == if f >= k { (x >> ((9 * f - 8 * k) as u64)) & 1 } else { 0 },
{
    assert(
        ((((DIAG_UP_MAIN >> ((8 * k) as u64)) >> t) & 1 == 1) == (t % 8 == t / 8 + k))
        && kg_rank_diag(x & (DIAG_UP_MAIN >> ((8 * k) as u64))) < 256
        && (kg_rank_diag(x & (DIAG_UP_MAIN >> ((8 * k) as u64))) >> f) & 1
            == if f >= k { (x >> ((9 * f - 8 * k) as u64)) & 1 } else { 0 }
    ) by (bit_vector)
        requires k < 8, f < 8, t < 64;
}

proof fn bv_diag_down_high(x: u64, k: u64, f: u64, t: u64)
    requires
        k < 8,
        f < 8,
        t < 64,
    ensures
        (((DIAG_DOWN_MAIN << ((8 * k) as u64)) >> t) & 1 == 1) == (t / 8 + t % 8 == 7 + k),
        kg_rank_diag(x & (DIAG_DOWN_MAIN << ((8 * k) as u64))) < 256,
        (kg_rank_diag(x & (DIAG_DOWN_MAIN << ((8 * k) as u64))) >> f) & 1
            == if f >= k { (x >> ((56 + 8 * k - 7 * f) as u64)) & 1 } else { 0 },
{
    assert(
        ((((DIAG_DOWN_MAIN << ((8 * k) as u64)) >> t) & 1 == 1) == (t / 8 + t % 8 == 7 + k))
        && kg_rank_diag(x & (DIAG_DOWN_MAIN << ((8 * k) as u64))) < 256
        && (kg_rank_diag(x & (DIAG_DOWN_MAIN << ((8 * k) as u64))) >> f) & 1
            == if f >= k { (x >> ((56 + 8 * k - 7 * f) as u64)) & 1 } else { 0 }
    ) by (bit_vector)
        requires k < 8, f < 8, t < 64;
}

proof fn bv_diag_down_low(x: u64, k: u64, f: u64, t: u64)
    requires
        k < 8,
        f < 8,
        t < 64,
    ensures
        (((DIAG_DOWN_MAIN >> ((8 * k) as u64)) >> t) & 1 == 1) == (t / 8 + t % 8 + k == 7),
        kg_rank_diag(x & (DIAG_DOWN_MAIN >> ((8 * k) as u64))) < 256,
        (kg_rank_diag(x & (DIAG_DOWN_MAIN >> ((8 * k) as u64))) >> f) & 1
            == if f + k <= 7 { (x >> ((56 - 8 * k - 7 * f) as u64)) & 1 } else { 0 },
{
    assert(
        ((((DIAG_DOWN_MAIN >> ((8 * k) as u64)) >> t) & 1 == 1) == (t / 8 + t % 8 + k == 7))
        && kg_rank_diag(x & (DIAG_DOWN_MAIN >> ((8 * k) as u64))) < 256
        && (kg_rank_diag(x & (DIAG_DOWN_MAIN >> ((8 * k) as u64))) >> f) & 1
            == if f + k <= 7 { (x >> ((56 - 8 * k - 7 * f) as u64)) & 1 } else { 0 }
    ) by (bit_vector)
        requires k < 8, f < 8, t < 64;
}


proof fn lemma_same_diag_up(s: int, t: int)
    requires
        0 <= s < 64,
        0 <= t < 64,
    ensures
        same_diag_up(s, t) <==> t / 8 - t % 8 == s / 8 - s % 8,
{
    let a = s / 8 - s % 8;
    let b = t / 8 - t % 8;
    assert(diag_up_id(s) == if a >= 0 { a } else { a + 16 });
    assert(diag_up_id(t) == if b >= 0 { b } else { b + 16 });
}

impl BitMask {
    /// The rank table, looked up with the index of a board's occupancy on the rank of `s`,
    /// gives what a slider on `s` reaches along the rank on that board.
    pub proof fn lemma_rank_lookup(&self, s: int, occ: u64)
        requires
            self.base_ok(),
            self.tables_ok(),
            0 <= s < 64,
        ensures
            kg_rank_diag(occ & self.rank_masks[s]) < 256,
            self.horizontal_attack_masks@[s]@[kg_rank_diag(occ & self.rank_masks[s]) as int] == line_board(s, 0, 1, occ),
    {
        let r = (s / 8) as u64;
        let m = 0xffu64 << ((8 * r) as u64);
        assert forall|t: int| 0 <= t < 64 implies has_bit(self.rank_masks[s], t) == has_bit(m, t) by {
            bv_rank(occ, r, 0, t as u64);
            assert(has_bit(self.rank_masks[s], t) <==> same_rank(s, t));
        }
        lemma_eq_by_bits(self.rank_masks[s], m);
        let j = kg_rank_diag(occ & m);
        bv_rank(occ, r, 0, 0);
        assert forall|k: int| 0 <= k < ray_len(s, 0, 1) implies
            pattern_blocks(false, j, #[trigger] ray_sq(s, 0, 1, k)) == has_bit(occ, ray_sq(s, 0, 1, k)) by {
            lemma_ray_on_board(s, 0, 1, k);
            let t = ray_sq(s, 0, 1, k);
            bv_rank(occ, r, (t % 8) as u64, t as u64);
        }
        assert forall|k: int| 0 <= k < ray_len(s, 0, -1) implies
            pattern_blocks(false, j, #[trigger] ray_sq(s, 0, -1, k)) == has_bit(occ, ray_sq(s, 0, -1, k)) by {
            lemma_ray_on_board(s, 0, -1, k);
            let t = ray_sq(s, 0, -1, k);
            bv_rank(occ, r, (t % 8) as u64, t as u64);
        }
        lemma_walk_pat_board(s, 0, 1, false, j, occ, 0);
        lemma_walk_pat_board(s, 0, -1, false, j, occ, 0);
    }

    /// The file table, looked up with the index of a board's occupancy on the file of `s`,
    /// gives what a slider on `s` reaches along the file on that board.
    pub proof fn lemma_file_lookup(&self, s: int, occ: u64)
        requires
            self.base_ok(),
            self.tables_ok(),
            0 <= s < 64,
        ensures
            kg_file(occ & self.file_masks[s], s as usize) < 256,
            self.vertical_attack_masks@[s]@[kg_file(occ & self.file_masks[s], s as usize) as int] == line_board(s, 1, 0, occ),
    {
        let su = s as u64;
        let m = 0x0101_0101_0101_0101u64 << (su & 7);
        assert forall|t: int| 0 <= t < 64 implies has_bit(self.file_masks[s], t) == has_bit(m, t) by {
            bv_file(occ, su, 0, t as u64);
            assert(has_bit(self.file_masks[s], t) <==> same_file(s, t));
        }
        lemma_eq_by_bits(self.file_masks[s], m);
        let j = kg_file(occ & m, s as usize);
        bv_file(occ, su, 0, 0);
        assert forall|k: int| 0 <= k < ray_len(s, 1, 0) implies
            pattern_blocks(true, j, #[trigger] ray_sq(s, 1, 0, k)) == has_bit(occ, ray_sq(s, 1, 0, k)) by {
            lemma_ray_on_board(s, 1, 0, k);
            let t = ray_sq(s, 1, 0, k);
            bv_file(occ, su, (t / 8) as u64, t as u64);
        }
        assert forall|k: int| 0 <= k < ray_len(s, -1, 0) implies
            pattern_blocks(true, j, #[trigger] ray_sq(s, -1, 0, k)) == has_bit(occ, ray_sq(s, -1, 0, k)) by {
            lemma_ray_on_board(s, -1, 0, k);
            let t = ray_sq(s, -1, 0, k);
            bv_file(occ, su, (t / 8) as u64, t as u64);
        }
        lemma_walk_pat_board(s, 1, 0, true, j, occ, 0);
        lemma_walk_pat_board(s, -1, 0, true, j, occ, 0);
    }

    /// The rising-diagonal table, looked up with the index of a board's occupancy on the
    /// diagonal of `s`, gives what a slider on `s` reaches along that diagonal on the board.
    pub proof fn lemma_diag_up_lookup(&self, s: int, occ: u64)
        requires
            self.base_ok(),
            self.tables_ok(),
            0 <= s < 64,
        ensures
            kg_rank_diag(occ & self.diag_up_masks[s]) < 256,
            self.diag_up_attack_masks@[s]@[kg_rank_diag(occ & self.diag_up_masks[s]) as int] == line_board(s, 1, 1, occ),
    {
        let r = s / 8;
        let f = s % 8;
        let m = if r >= f { DIAG_UP_MAIN << ((8 * (r - f)) as u64) } else { DIAG_UP_MAIN >> ((8 * (f - r)) as u64) };
        let k = (if r >= f { r - f } else { f - r }) as u64;
        assert forall|t: int| 0 <= t < 64 implies has_bit(self.diag_up_masks[s], t) == has_bit(m, t) by {
            lemma_same_diag_up(s, t);
            assert(has_bit(self.diag_up_masks[s], t) <==> same_diag_up(s, t));
            if r >= f { bv_diag_up_high(occ, k, 0, t as u64); } else { bv_diag_up_low(occ, k, 0, t as u64); }
        }
        lemma_eq_by_bits(self.diag_up_masks[s], m);
        let j = kg_rank_diag(occ & m);
        if r >= f { bv_diag_up_high(occ, k, 0, 0); } else { bv_diag_up_low(occ, k, 0, 0); }
        assert forall|q: int| 0 <= q < ray_len(s, 1, 1) implies
            pattern_blocks(false, j, #[trigger] ray_sq(s, 1, 1, q)) == has_bit(occ, ray_sq(s, 1, 1, q)) by {
            lemma_ray_on_board(s, 1, 1, q);
            let t = ray_sq(s, 1, 1, q);
            if r >= f { bv_diag_up_high(occ, k, (t % 8) as u64, t as u64); } else { bv_diag_up_low(occ, k, (t % 8) as u64, t as u64); }
        }
        assert forall|q: int| 0 <= q < ray_len(s, -1, -1) implies
            pattern_blocks(false, j, #[trigger] ray_sq(s, -1, -1, q)) == has_bit(occ, ray_sq(s, -1, -1, q)) by {
            lemma_ray_on_board(s, -1, -1, q);
            let t = ray_sq(s, -1, -1, q);
            if r >= f { bv_diag_up_high(occ, k, (t % 8) as u64, t as u64); } else { bv_diag_up_low(occ, k, (t % 8) as u64, t as u64); }
        }
        lemma_walk_pat_board(s, 1, 1, false, j, occ, 0);
        lemma_walk_pat_board(s, -1, -1, false, j, occ, 0);
    }

    /// The falling-diagonal table, looked up with the index of a board's occupancy on the
    /// diagonal of `s`, gives what a slider on `s` reaches along that diagonal on the board.
    pub proof fn lemma_diag_down_lookup(&self, s: int, occ: u64)
        requires
            self.base_ok(),
            self.tables_ok(),
            0 <= s < 64,
        ensures
            kg_rank_diag(occ & self.diag_down_masks[s]) < 256,
            self.diag_down_attack_masks@[s]@[kg_rank_diag(occ & self.diag_down_masks[s]) as int] == line_board(s, 1, -1, occ),
    {
        let c = s / 8 + s % 8;
        let m = if c >= 7 { DIAG_DOWN_MAIN << ((8 * (c - 7)) as u64) } else { DIAG_DOWN_MAIN >> ((8 * (7 - c)) as u64) };
        let k = (if c >= 7 { c - 7 } else { 7 - c }) as u64;
        assert forall|t: int| 0 <= t < 64 implies has_bit(self.diag_down_masks[s], t) == has_bit(m, t) by {
            assert(has_bit(self.diag_down_masks[s], t) <==> same_diag_down(s, t));
            if c >= 7 { bv_diag_down_high(occ, k, 0, t as u64); } else { bv_diag_down_low(occ, k, 0, t as u64); }
        }
        lemma_eq_by_bits(self.diag_down_masks[s], m);
        let j = kg_rank_diag(occ & m);
        if c >= 7 { bv_diag_down_high(occ, k, 0, 0); } else { bv_diag_down_low(occ, k, 0, 0); }
        assert forall|q: int| 0 <= q < ray_len(s, 1, -1) implies
            pattern_blocks(false, j, #[trigger] ray_sq(s, 1, -1, q)) == has_bit(occ, ray_sq(s, 1, -1, q)) by {
            lemma_ray_on_board(s, 1, -1, q);
            let t = ray_sq(s, 1, -1, q);
            if c >= 7 { bv_diag_down_high(occ, k, (t % 8) as u64, t as u64); } else { bv_diag_down_low(occ, k, (t % 8) as u64, t as u64); }
        }
        assert forall|q: int| 0 <= q < ray_len(s, -1, 1) implies
            pattern_blocks(false, j, #[trigger] ray_sq(s, -1, 1, q)) == has_bit(occ, ray_sq(s, -1, 1, q)) by {
            lemma_ray_on_board(s, -1, 1, q);
            let t = ray_sq(s, -1, 1, q);
            if c >= 7 { bv_diag_down_high(occ, k, (t % 8) as u64, t as u64); } else { bv_diag_down_low(occ, k, (t % 8) as u64, t as u64); }
        }
        lemma_walk_pat_board(s, 1, -1, false, j, occ, 0);
        lemma_walk_pat_board(s, -1, 1, false, j, occ, 0);
    }
}

} // verus!
