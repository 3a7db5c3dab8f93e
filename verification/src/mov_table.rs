//! Pseudo-legal move generation on the bitboards: each piece's targets come from the
//! precomputed masks and sliding tables, and the moves are written into a fixed list.
use vstd::prelude::*;
use crate::bits::{has_bit, single, lemma_and_bit, lemma_or_bit, lemma_not_bit, lemma_zero_bit, lemma_zero_iff_no_bits};
use crate::def;
use crate::mov_gen::{enc, promos};
use crate::util::{self, kg_rank_diag, kg_file};
use crate::bitboard::BitBoard;
use crate::bitmask::BitMask;
use crate::slide::line_board;
use crate::state::{State, StateModel, do_mov_model, can_do_mov, can_restore, lemma_undo_mov_restores};
use crate::slide::walk_board;
use crate::mov_tbl::{ray_len, ray_sq, lemma_ray_on_board};
use vstd::std_specs::bits::{u64_trailing_zeros, u64_leading_zeros, axiom_u64_trailing_zeros, axiom_u64_leading_zeros};

verus! {

/// Moves of kind `tp` from `from` to each square of `targets` below `n`, squares ascending.
pub open spec fn target_movs(from: int, targets: u64, n: int) -> Seq<u32>
    decreases n,
{
    if n <= 0 {
        Seq::empty()
    } else {
        target_movs(from, targets, n - 1)
            + if has_bit(targets, n - 1) { seq![enc(from, n - 1, def::MOV_REG, 0)] } else { Seq::<u32>::empty() }
    }
}

/// The moves of a pawn of `player` on `from` onto the square `t`: the four promotions on the
/// last rank, an en-passant capture on `enp`, a regular move otherwise.
pub open spec fn pawn_target_mov(player: u8, from: int, t: int, enp: int) -> Seq<u32> {
    if (player == def::PLAYER_W && t > 55) || (player != def::PLAYER_W && t < 8) {
        promos(player, from, t)
    } else if t == enp {
        seq![enc(from, t, def::MOV_ENP, 0)]
    } else {
        seq![enc(from, t, def::MOV_REG, 0)]
    }
}

/// The moves of a pawn of `player` on `from` onto each square of `targets` below `n`, ascending.
pub open spec fn pawn_target_movs(player: u8, from: int, targets: u64, enp: int, n: int) -> Seq<u32>
    decreases n,
{
    if n <= 0 {
        Seq::empty()
    } else {
        pawn_target_movs(player, from, targets, enp, n - 1)
            + if has_bit(targets, n - 1) { pawn_target_mov(player, from, n - 1, enp) } else { Seq::<u32>::empty() }
    }
}

/// A list of capacity `N` after `movs` were written at `count` on: what stood before `count`
/// and after the new moves is untouched.
pub open spec fn written(before: Seq<u32>, after: Seq<u32>, count: int, movs: Seq<u32>) -> bool {
    &&& after.len() == before.len()
    &&& count + movs.len() <= before.len()
    &&& after.subrange(0, count) == before.subrange(0, count)
    &&& after.subrange(count, count + movs.len()) == movs
    &&& after.subrange(count + movs.len(), after.len() as int) == before.subrange(count + movs.len(), before.len() as int)
}

proof fn bv_shift_step(x: u64, i: u64, j: u64)
    requires
        i < 64,
        j < 64,
    ensures
        ((x >> i) & 1 != 0) == ((x >> i) & 1 == 1),
        (x >> i) >> 1u64 == if i < 63 { x >> (i + 1) } else { 0 },
        (x >> i) == 0 && i <= j ==> (x >> j) & 1 == 0,
        x >> 0u64 == x,
{
    assert(
        x >> 0u64 == x
        && (((x >> i) & 1 != 0) == ((x >> i) & 1 == 1))
        && ((x >> i) >> 1u64 == if i < 63 { x >> (i + 1) } else { 0 })
        && ((x >> i) == 0 && i <= j ==> (x >> j) & 1 == 0)
    ) by (bit_vector)
        requires i < 64, j < 64;
}

proof fn lemma_target_movs_empty_below(from: int, targets: u64, n: int)
    requires
        n <= 64,
        forall|j: int| 0 <= j < n ==> !#[trigger] has_bit(targets, j),
    ensures
        target_movs(from, targets, n) == Seq::<u32>::empty(),
    decreases n,
{
    if n > 0 {
        lemma_target_movs_empty_below(from, targets, n - 1);
    }
}

proof fn lemma_target_movs_same_above(from: int, targets: u64, k: int, n: int)
    requires
        0 <= k <= n <= 64,
        forall|j: int| k <= j < n ==> !#[trigger] has_bit(targets, j),
    ensures
        target_movs(from, targets, n) == target_movs(from, targets, k),
    decreases n - k,
{
    if n > k {
        lemma_target_movs_same_above(from, targets, k, n - 1);
        assert(target_movs(from, targets, n) =~= target_movs(from, targets, n - 1));
    }
}

proof fn lemma_pawn_target_movs_empty_below(player: u8, from: int, targets: u64, enp: int, n: int)
    requires
        n <= 64,
        forall|j: int| 0 <= j < n ==> !#[trigger] has_bit(targets, j),
    ensures
        pawn_target_movs(player, from, targets, enp, n) == Seq::<u32>::empty(),
    decreases n,
{
    if n > 0 {
        lemma_pawn_target_movs_empty_below(player, from, targets, enp, n - 1);
    }
}

proof fn lemma_pawn_target_movs_same_above(player: u8, from: int, targets: u64, enp: int, k: int, n: int)
    requires
        0 <= k <= n <= 64,
        forall|j: int| k <= j < n ==> !#[trigger] has_bit(targets, j),
    ensures
        pawn_target_movs(player, from, targets, enp, n) == pawn_target_movs(player, from, targets, enp, k),
    decreases n - k,
{
    if n > k {
        lemma_pawn_target_movs_same_above(player, from, targets, enp, k, n - 1);
        assert(pawn_target_movs(player, from, targets, enp, n) =~= pawn_target_movs(player, from, targets, enp, n - 1));
    }
}

fn add_mov<const N: usize>(list: &mut [u32; N], count: usize, from: usize, to: usize, tp: u8, promo: u8)
    requires
        count < N,
        from < 64,
        to < 64,
    ensures
        final(list)@ == old(list)@.update(count as int, enc(from as int, to as int, tp, promo)),
{
    list[count] = util::encode_u32_mov(from, to, tp, promo);
}

/// Writes a regular move from `from` to each square of `targets`, ascending, at `count` on,
/// and returns the new count.
fn push_targets<const N: usize>(list: &mut [u32; N], count: usize, from: usize, targets: u64) -> (r: usize)
    requires
        from < 64,
        count + target_movs(from as int, targets, 64).len() <= N,
    ensures
        r == count + target_movs(from as int, targets, 64).len(),
        written(old(list)@, final(list)@, count as int, target_movs(from as int, targets, 64)),
{
    let ghost orig = list@;
    let ghost all = target_movs(from as int, targets, 64);
    if targets == 0 {
        proof {
            lemma_zero_iff_no_bits(targets);
            lemma_target_movs_empty_below(from as int, targets, 64);
            assert(list@.subrange(count as int, count as int) =~= Seq::<u32>::empty());
        }
        return count;
    }
    let start = util::get_lowest_index(targets);
    proof {
        assert forall|j: int| 0 <= j < start implies !#[trigger] has_bit(targets, j) by {
            assert(((targets >> (j as u64)) & 1u64) == 0);
        }
        lemma_target_movs_empty_below(from as int, targets, start as int);
        lemma_target_movs_same_above(from as int, targets, start as int, start as int);
    }
    let mut mask: u64 = targets >> start as u64;
    let mut index: usize = start;
    let mut c: usize = count;
    proof {
        assert(list@.subrange(count as int, count as int) =~= Seq::<u32>::empty());
    }
    while mask != 0
        invariant
            from < 64,
            index <= 64,
            index < 64 ==> mask == targets >> (index as u64),
            index == 64 ==> mask == 0,
            c == count + target_movs(from as int, targets, index as int).len(),
            count + all.len() <= N,
            all == target_movs(from as int, targets, 64),
            list@.len() == N,
            orig.len() == N,
            list@.subrange(0, count as int) == orig.subrange(0, count as int),
            list@.subrange(count as int, c as int) == target_movs(from as int, targets, index as int),
            list@.subrange(c as int, N as int) == orig.subrange(c as int, N as int),
        decreases 64 - index,
    {
        assert(index < 64);
        proof {
            bv_shift_step(targets, index as u64, index as u64);
            lemma_target_movs_same_above(from as int, targets, index as int, index as int);
        }
        let ghost prev = target_movs(from as int, targets, index as int);
        if mask & 1u64 != 0 {
            proof {
                assert(target_movs(from as int, targets, index + 1) == prev + seq![enc(from as int, index as int, def::MOV_REG, 0)]);
                lemma_target_movs_prefix_len(from as int, targets, index as int + 1);
            }
            let ghost before = list@;
            add_mov(list, c, from, index, def::MOV_REG, 0);
            c = c + 1;
            proof {
                assert forall|k: int| c <= k < N implies list@[k] == orig[k] by {
                    assert(before.subrange(c - 1, N as int)[k - (c - 1)] == orig.subrange(c - 1, N as int)[k - (c - 1)]);
                }
                assert(list@.subrange(count as int, c as int) =~= prev + seq![enc(from as int, index as int, def::MOV_REG, 0)]);
                assert(list@.subrange(0, count as int) =~= orig.subrange(0, count as int));
                assert(list@.subrange(c as int, N as int) =~= orig.subrange(c as int, N as int));
            }
        } else {
            assert(target_movs(from as int, targets, index + 1) =~= prev);
        }
        mask = mask >> 1u64;
        index = index + 1;
    }
    proof {
        if index < 64 {
            assert forall|j: int| index <= j < 64 implies !#[trigger] has_bit(targets, j) by {
                bv_shift_step(targets, index as u64, j as u64);
            }
        }
        lemma_target_movs_same_above(from as int, targets, index as int, 64);
    }
    c
}

proof fn lemma_target_movs_prefix_len(from: int, targets: u64, n: int)
    requires
        0 <= n <= 64,
    ensures
        target_movs(from, targets, n).len() <= target_movs(from, targets, 64).len(),
    decreases 64 - n,
{
    if n < 64 {
        lemma_target_movs_prefix_len(from, targets, n + 1);
    }
}


/// Two writes one after the other make one write of both lists of moves.
pub proof fn lemma_written_compose(before: Seq<u32>, mid: Seq<u32>, after: Seq<u32>, c: int, m1: Seq<u32>, m2: Seq<u32>)
    requires
        0 <= c,
        written(before, mid, c, m1),
        written(mid, after, c + m1.len(), m2),
    ensures
        written(before, after, c, m1 + m2),
{
    let n = before.len() as int;
    let c1 = c + m1.len();
    let c2 = c1 + m2.len();
    assert forall|k: int| 0 <= k < c implies after[k] == before[k] by {
        assert(after.subrange(0, c1)[k] == mid.subrange(0, c1)[k]);
        assert(mid.subrange(0, c)[k] == before.subrange(0, c)[k]);
    }
    assert(after.subrange(0, c) =~= before.subrange(0, c));
    assert forall|k: int| c <= k < c2 implies after[k] == (m1 + m2)[k - c] by {
        if k < c1 {
            assert(after.subrange(0, c1)[k] == mid.subrange(0, c1)[k]);
            assert(mid.subrange(c, c1)[k - c] == m1[k - c]);
        } else {
            assert(after.subrange(c1, c2)[k - c1] == m2[k - c1]);
        }
    }
    assert(after.subrange(c, c2) =~= m1 + m2);
    assert forall|k: int| c2 <= k < n implies after[k] == before[k] by {
        assert(after.subrange(c2, n)[k - c2] == mid.subrange(c2, n)[k - c2]);
        assert(mid.subrange(c1, n)[k - c1] == before.subrange(c1, n)[k - c1]);
    }
    assert(after.subrange(c2, n) =~= before.subrange(c2, n));
}

/// Nothing written leaves the list as it was.
pub proof fn lemma_written_none(before: Seq<u32>, c: int)
    requires
        0 <= c <= before.len(),
    ensures
        written(before, before, c, Seq::<u32>::empty()),
{
    assert(before.subrange(c, c) =~= Seq::<u32>::empty());
}

fn add_mov_w<const N: usize>(list: &mut [u32; N], count: usize, from: usize, to: usize, tp: u8, promo: u8) -> (r: usize)
    requires
        count < N,
        from < 64,
        to < 64,
    ensures
        r == count + 1,
        written(old(list)@, final(list)@, count as int, seq![enc(from as int, to as int, tp, promo)]),
{
    let ghost before = list@;
    add_mov(list, count, from, to, tp, promo);
    proof {
        assert(list@.subrange(0, count as int) =~= before.subrange(0, count as int));
        assert(list@.subrange(count as int, count + 1) =~= seq![enc(from as int, to as int, tp, promo)]);
        assert(list@.subrange(count + 1, N as int) =~= before.subrange(count + 1, N as int));
    }
    count + 1
}

/// Writes the moves of a pawn of `player` on `from` onto `t` at `count` on.
fn add_pawn_target<const N: usize>(list: &mut [u32; N], count: usize, player: u8, from: usize, t: usize, enp: usize) -> (r: usize)
    requires
        from < 64,
        t < 64,
        count + pawn_target_mov(player, from as int, t as int, enp as int).len() <= N,
    ensures
        r == count + pawn_target_mov(player, from as int, t as int, enp as int).len(),
        written(old(list)@, final(list)@, count as int, pawn_target_mov(player, from as int, t as int, enp as int)),
{
    if (player == def::PLAYER_W && t > 55) || (player != def::PLAYER_W && t < 8) {
        let (q, r, b, n) = if player == def::PLAYER_W {
            (def::WQ, def::WR, def::WB, def::WN)
        } else {
            (def::BQ, def::BR, def::BB, def::BN)
        };
        let ghost l0 = list@;
        let c1 = add_mov_w(list, count, from, t, def::MOV_PROMO, q);
        let ghost l1 = list@;
        let c2 = add_mov_w(list, c1, from, t, def::MOV_PROMO, r);
        let ghost l2 = list@;
        let c3 = add_mov_w(list, c2, from, t, def::MOV_PROMO, b);
        let ghost l3 = list@;
        let c4 = add_mov_w(list, c3, from, t, def::MOV_PROMO, n);
        proof {
            let e = |p: u8| enc(from as int, t as int, def::MOV_PROMO, p);
            lemma_written_compose(l0, l1, l2, count as int, seq![e(q)], seq![e(r)]);
            lemma_written_compose(l0, l2, l3, count as int, seq![e(q)] + seq![e(r)], seq![e(b)]);
            lemma_written_compose(l0, l3, list@, count as int, seq![e(q)] + seq![e(r)] + seq![e(b)], seq![e(n)]);
            assert(seq![e(q)] + seq![e(r)] + seq![e(b)] + seq![e(n)] =~= promos(player, from as int, t as int));
        }
        c4
    } else if t == enp {
        add_mov_w(list, count, from, t, def::MOV_ENP, 0)
    } else {
        add_mov_w(list, count, from, t, def::MOV_REG, 0)
    }
}

proof fn lemma_pawn_target_movs_prefix_len(player: u8, from: int, targets: u64, enp: int, n: int)
    requires
        0 <= n <= 64,
    ensures
        pawn_target_movs(player, from, targets, enp, n).len() <= pawn_target_movs(player, from, targets, enp, 64).len(),
    decreases 64 - n,
{
    if n < 64 {
        lemma_pawn_target_movs_prefix_len(player, from, targets, enp, n + 1);
    }
}

/// Writes the moves of a pawn of `player` on `from` onto each square of `targets`, ascending,
/// at `count` on, and returns the new count.
fn push_pawn_targets<const N: usize>(list: &mut [u32; N], count: usize, player: u8, from: usize, targets: u64, enp: usize) -> (r: usize)
    requires
        from < 64,
        count + pawn_target_movs(player, from as int, targets, enp as int, 64).len() <= N,
    ensures
        r == count + pawn_target_movs(player, from as int, targets, enp as int, 64).len(),
        written(old(list)@, final(list)@, count as int, pawn_target_movs(player, from as int, targets, enp as int, 64)),
{
    let ghost orig = list@;
    let ghost all = pawn_target_movs(player, from as int, targets, enp as int, 64);
    if targets == 0 {
        proof {
            lemma_zero_iff_no_bits(targets);
            lemma_pawn_target_movs_empty_below(player, from as int, targets, enp as int, 64);
            lemma_written_none(list@, count as int);
        }
        return count;
    }
    let start = util::get_lowest_index(targets);
    proof {
        assert forall|j: int| 0 <= j < start implies !#[trigger] has_bit(targets, j) by {
            assert(((targets >> (j as u64)) & 1u64) == 0);
        }
        lemma_pawn_target_movs_empty_below(player, from as int, targets, enp as int, start as int);
        lemma_written_none(list@, count as int);
    }
    let mut mask: u64 = targets >> start as u64;
    let mut index: usize = start;
    let mut c: usize = count;
    while mask != 0
        invariant
            from < 64,
            index <= 64,
            index < 64 ==> mask == targets >> (index as u64),
            index == 64 ==> mask == 0,
            c == count + pawn_target_movs(player, from as int, targets, enp as int, index as int).len(),
            count + all.len() <= N,
            all == pawn_target_movs(player, from as int, targets, enp as int, 64),
            orig.len() == N,
            written(orig, list@, count as int, pawn_target_movs(player, from as int, targets, enp as int, index as int)),
        decreases 64 - index,
    {
        assert(index < 64);
        proof {
            bv_shift_step(targets, index as u64, index as u64);
        }
        let ghost prev = pawn_target_movs(player, from as int, targets, enp as int, index as int);
        if mask & 1u64 != 0 {
            proof {
                assert(pawn_target_movs(player, from as int, targets, enp as int, index + 1)
                    == prev + pawn_target_mov(player, from as int, index as int, enp as int));
                lemma_pawn_target_movs_prefix_len(player, from as int, targets, enp as int, index as int + 1);
            }
            let ghost before = list@;
            c = add_pawn_target(list, c, player, from, index, enp);
            proof {
                lemma_written_compose(orig, before, list@, count as int, prev, pawn_target_mov(player, from as int, index as int, enp as int));
            }
        } else {
            assert(pawn_target_movs(player, from as int, targets, enp as int, index + 1) =~= prev);
        }
        mask = mask >> 1u64;
        index = index + 1;
    }
    proof {
        if index < 64 {
            assert forall|j: int| index <= j < 64 implies !#[trigger] has_bit(targets, j) by {
                bv_shift_step(targets, index as u64, j as u64);
            }
        }
        lemma_pawn_target_movs_same_above(player, from as int, targets, enp as int, index as int, 64);
    }
    c
}


/// The squares of one side.
pub open spec fn side_board(bb: BitBoard, player: u8) -> u64 {
    if player == def::PLAYER_W { bb.w_all } else { bb.b_all }
}

/// The occupied squares.
pub open spec fn occupied(bb: BitBoard) -> u64 {
    bb.w_all | bb.b_all
}

/// What a rook on `s` reaches on the board `occ`.
pub open spec fn rook_attacks(s: int, occ: u64) -> u64 {
    line_board(s, 0, 1, occ) | line_board(s, 1, 0, occ)
}

/// What a bishop on `s` reaches on the board `occ`.
pub open spec fn bishop_attacks(s: int, occ: u64) -> u64 {
    line_board(s, 1, 1, occ) | line_board(s, 1, -1, occ)
}

/// The square `index` is attacked by a piece of the side that is not `player`: a knight,
/// the king, a pawn, or a rook, bishop or queen with nothing in between.
pub open spec fn under_attack(m: StateModel, bm: BitMask, index: int, player: u8) -> bool {
    let bb = m.bitboard;
    let occ = occupied(bb);
    let w = player == def::PLAYER_W;
    let n = if w { bb.b_knight } else { bb.w_knight };
    let k = if w { m.bk_index } else { m.wk_index };
    let pawns = if w { bb.b_pawn & bm.wp_attack_masks[index] } else { bb.w_pawn & bm.bp_attack_masks[index] };
    let rq = if w { bb.b_rook | bb.b_queen } else { bb.w_rook | bb.w_queen };
    let bq = if w { bb.b_bishop | bb.b_queen } else { bb.w_bishop | bb.w_queen };
    ||| n & bm.n_attack_masks[index] != 0
    ||| has_bit(bm.k_attack_masks[index], k as int)
    ||| pawns != 0
    ||| line_board(index, 0, 1, occ) & rq != 0
    ||| line_board(index, 1, 0, occ) & rq != 0
    ||| line_board(index, 1, 1, occ) & bq != 0
    ||| line_board(index, 1, -1, occ) & bq != 0
}

/// The king of `player` is attacked.
pub open spec fn in_check(m: StateModel, bm: BitMask, player: u8) -> bool {
    under_attack(m, bm, (if player == def::PLAYER_W { m.wk_index } else { m.bk_index }) as int, player)
}

/// What the attack tests need of a position: the masks are right, and the kings and the
/// en-passant square are on the board.
pub open spec fn can_probe(m: StateModel, bm: BitMask) -> bool {
    &&& bm.wf()
    &&& m.wk_index < 64
    &&& m.bk_index < 64
    &&& m.enp_square < 64
    &&& def::is_player(m.player)
    &&& m.squares.len() == 64
}

proof fn lemma_and_zero(x: u64)
    ensures
        x & 0 == 0,
{
    assert forall|j: int| 0 <= j < 64 implies !has_bit(x & 0, j) by {
        lemma_and_bit(x, 0, j);
        lemma_zero_bit(j);
    }
    lemma_zero_iff_no_bits(x & 0);
}

proof fn lemma_single_and(k: int, x: u64)
    requires
        0 <= k < 64,
    ensures
        (single(k) & x != 0) == has_bit(x, k),
{
    assert forall|j: int| 0 <= j < 64 implies has_bit(single(k) & x, j) == (j == k && has_bit(x, k)) by {
        lemma_and_bit(single(k), x, j);
        crate::bits::lemma_single_bit(k, j);
    }
    lemma_zero_iff_no_bits(single(k) & x);
    assert(has_bit(single(k) & x, k) == has_bit(x, k));
}

/// The rook-like attack from `index` along the rank, looked up in the table.
pub fn horizontal_lookup(bm: &BitMask, index: usize, occ: u64) -> (r: u64)
    requires
        bm.wf(),
        index < 64,
    ensures
        r == line_board(index as int, 0, 1, occ),
{
    proof { bm.lemma_rank_lookup(index as int, occ); }
    let j = util::kindergarten_transform_rank_diag(occ & bm.rank_masks[index]);
    bm.horizontal_attack_masks[index][j as usize]
}

pub fn vertical_lookup(bm: &BitMask, index: usize, occ: u64) -> (r: u64)
    requires
        bm.wf(),
        index < 64,
    ensures
        r == line_board(index as int, 1, 0, occ),
{
    proof { bm.lemma_file_lookup(index as int, occ); }
    let j = util::kindergarten_transform_file(occ & bm.file_masks[index], index);
    bm.vertical_attack_masks[index][j as usize]
}

pub fn diag_up_lookup(bm: &BitMask, index: usize, occ: u64) -> (r: u64)
    requires
        bm.wf(),
        index < 64,
    ensures
        r == line_board(index as int, 1, 1, occ),
{
    proof { bm.lemma_diag_up_lookup(index as int, occ); }
    let j = util::kindergarten_transform_rank_diag(occ & bm.diag_up_masks[index]);
    bm.diag_up_attack_masks[index][j as usize]
}

pub fn diag_down_lookup(bm: &BitMask, index: usize, occ: u64) -> (r: u64)
    requires
        bm.wf(),
        index < 64,
    ensures
        r == line_board(index as int, 1, -1, occ),
{
    proof { bm.lemma_diag_down_lookup(index as int, occ); }
    let j = util::kindergarten_transform_rank_diag(occ & bm.diag_down_masks[index]);
    bm.diag_down_attack_masks[index][j as usize]
}

/// Whether the square `index` is attacked by the side that is not `player`.
pub fn is_under_attack(state: &State, index: usize, player: u8) -> (r: bool)
    requires
        can_probe(state@, *state.bitmask),
        index < 64,
        def::is_player(player),
    ensures
        r == under_attack(state@, *state.bitmask, index as int, player),
{
    let bitboard = state.bitboard;
    let bitmask = state.bitmask;

    let opponent_n_mask = if player == def::PLAYER_W { bitboard.b_knight } else { bitboard.w_knight };
    if opponent_n_mask & bitmask.n_attack_masks[index] != 0 {
        return true;
    }

    let opponent_k_mask = if player == def::PLAYER_W {
        bitmask.index_masks[state.bk_index]
    } else {
        bitmask.index_masks[state.wk_index]
    };
    proof {
        let k = if player == def::PLAYER_W { state.bk_index } else { state.wk_index };
        lemma_single_and(k as int, bitmask.k_attack_masks[index as int]);
    }
    if opponent_k_mask & bitmask.k_attack_masks[index] != 0 {
        return true;
    }

    if player == def::PLAYER_W && bitboard.b_pawn & bitmask.wp_attack_masks[index] != 0 {
        return true;
    } else if player == def::PLAYER_B && bitboard.w_pawn & bitmask.bp_attack_masks[index] != 0 {
        return true;
    }

    let blocker_mask = bitboard.w_all | bitboard.b_all;

    let opponent_rq_mask = if player == def::PLAYER_W {
        bitboard.b_rook | bitboard.b_queen
    } else {
        bitboard.w_rook | bitboard.w_queen
    };

    if opponent_rq_mask != 0 {
        let horizontal_attack_mask = horizontal_lookup(bitmask, index, blocker_mask);
        if horizontal_attack_mask & opponent_rq_mask != 0 {
            return true;
        }

        let vertical_attack_mask = vertical_lookup(bitmask, index, blocker_mask);
        if vertical_attack_mask & opponent_rq_mask != 0 {
            return true;
        }
    } else {
        proof {
            lemma_and_zero(line_board(index as int, 0, 1, blocker_mask));
            lemma_and_zero(line_board(index as int, 1, 0, blocker_mask));
        }
    }

    let opponent_bq_mask = if player == def::PLAYER_W {
        bitboard.b_bishop | bitboard.b_queen
    } else {
        bitboard.w_bishop | bitboard.w_queen
    };

    if opponent_bq_mask != 0 {
        let diag_up_attack_mask = diag_up_lookup(bitmask, index, blocker_mask);
        if diag_up_attack_mask & opponent_bq_mask != 0 {
            return true;
        }

        let diag_down_attack_mask = diag_down_lookup(bitmask, index, blocker_mask);
        if diag_down_attack_mask & opponent_bq_mask != 0 {
            return true;
        }
    } else {
        proof {
            lemma_and_zero(line_board(index as int, 1, 1, blocker_mask));
            lemma_and_zero(line_board(index as int, 1, -1, blocker_mask));
        }
    }

    false
}

/// Whether the king of `player` is attacked.
pub fn is_in_check(state: &State, player: u8) -> (r: bool)
    requires
        can_probe(state@, *state.bitmask),
        def::is_player(player),
    ensures
        r == in_check(state@, *state.bitmask, player),
{
    let k_index = if player == def::PLAYER_W { state.wk_index } else { state.bk_index };
    is_under_attack(state, k_index, player)
}


pub const ENP_SQRS_MASK: u64 = 0x0000_ff00_00ff_0000;

pub const CAS_WK_OCCUPY_MASK: u64 = 0b1001_0000;
pub const CAS_WK_R_MASK: u64 = 0b1000_0000;
pub const CAS_WK_EMPTY_MASK: u64 = 0b0110_0000;

pub const CAS_WQ_OCCUPY_MASK: u64 = 0b0001_0001;
pub const CAS_WQ_R_MASK: u64 = 0b0000_0001;
pub const CAS_WQ_EMPTY_MASK: u64 = 0b0000_1110;

pub const CAS_BK_OCCUPY_MASK: u64 = 0x9000_0000_0000_0000;
pub const CAS_BK_R_MASK: u64 = 0x8000_0000_0000_0000;
pub const CAS_BK_EMPTY_MASK: u64 = 0x6000_0000_0000_0000;

pub const CAS_BQ_OCCUPY_MASK: u64 = 0x1100_0000_0000_0000;
pub const CAS_BQ_R_MASK: u64 = 0x0100_0000_0000_0000;
pub const CAS_BQ_EMPTY_MASK: u64 = 0x0e00_0000_0000_0000;

/// The forward moves of the pawn of the side to move on `from`: one square up (or down for
/// black) when it is empty, as four promotions onto the last rank, and from the second rank
/// two squares when that one is empty too.
pub open spec fn pawn_push_movs(m: StateModel, bm: BitMask, from: int) -> Seq<u32> {
    let empty = !occupied(m.bitboard);
    if m.player == def::PLAYER_W {
        if bm.wp_mov_masks[from] & empty != 0 {
            let to = from + 8;
            if to > 55 {
                promos(def::PLAYER_W, from, to)
            } else {
                seq![enc(from, to, def::MOV_REG, 0)]
                    + if bm.wp_init_mov_masks[from] & empty != 0 { seq![enc(from, to + 8, def::MOV_CR_ENP, 0)] } else { Seq::<u32>::empty() }
            }
        } else {
            Seq::empty()
        }
    } else {
        if bm.bp_mov_masks[from] & empty != 0 {
            let to = from - 8;
            if to < 8 {
                promos(m.player, from, to)
            } else {
                seq![enc(from, to, def::MOV_REG, 0)]
                    + if bm.bp_init_mov_masks[from] & empty != 0 { seq![enc(from, to - 8, def::MOV_CR_ENP, 0)] } else { Seq::<u32>::empty() }
            }
        } else {
            Seq::empty()
        }
    }
}

/// The forward moves of that pawn that are promotions.
pub open spec fn pawn_promo_push_movs(m: StateModel, bm: BitMask, from: int) -> Seq<u32> {
    let empty = !occupied(m.bitboard);
    if m.player == def::PLAYER_W {
        if bm.wp_mov_masks[from] & empty != 0 && from + 8 > 55 { promos(def::PLAYER_W, from, from + 8) } else { Seq::empty() }
    } else {
        if bm.bp_mov_masks[from] & empty != 0 && from - 8 < 8 { promos(m.player, from, from - 8) } else { Seq::empty() }
    }
}

/// The squares the pawn of the side to move on `from` captures on: enemy pieces it attacks,
/// and the en-passant square (for black only on the third or sixth rank).
pub open spec fn pawn_cap_targets(m: StateModel, bm: BitMask, from: int) -> u64 {
    let bb = m.bitboard;
    if m.player == def::PLAYER_W {
        bm.wp_attack_masks[from] & (bb.b_all | bm.index_masks[m.enp_square as int])
    } else {
        bm.bp_attack_masks[from] & (bb.w_all | (bm.index_masks[m.enp_square as int] & ENP_SQRS_MASK))
    }
}

/// The pseudo-legal moves of the piece of the side to move on `from` (none when the square
/// holds no such piece), in the order the list gets them.
pub open spec fn piece_reg_movs(m: StateModel, bm: BitMask, from: int) -> Seq<u32> {
    let p = m.squares[from];
    let bb = m.bitboard;
    let own = side_board(bb, m.player);
    let occ = occupied(bb);
    if !(p != 0 && def::side_of(p) == m.player) {
        Seq::empty()
    } else if def::kind_of(p) == def::KIND_P {
        pawn_push_movs(m, bm, from) + pawn_target_movs(m.player, from, pawn_cap_targets(m, bm, from), m.enp_square as int, 64)
    } else if def::kind_of(p) == def::KIND_N {
        target_movs(from, bm.n_attack_masks[from] & !own, 64)
    } else if def::kind_of(p) == def::KIND_B {
        target_movs(from, bishop_attacks(from, occ) & !own, 64)
    } else if def::kind_of(p) == def::KIND_R {
        target_movs(from, rook_attacks(from, occ) & !own, 64)
    } else if def::kind_of(p) == def::KIND_Q {
        target_movs(from, (rook_attacks(from, occ) | bishop_attacks(from, occ)) & !own, 64)
    } else if def::kind_of(p) == def::KIND_K {
        target_movs(from, bm.k_attack_masks[from] & !own, 64)
    } else {
        Seq::empty()
    }
}

/// The captures and promotions of the piece of the side to move on `from`.
pub open spec fn piece_cap_movs(m: StateModel, bm: BitMask, from: int) -> Seq<u32> {
    let p = m.squares[from];
    let bb = m.bitboard;
    let opp = side_board(bb, def::opposite(m.player));
    let occ = occupied(bb);
    if !(p != 0 && def::side_of(p) == m.player) {
        Seq::empty()
    } else if def::kind_of(p) == def::KIND_P {
        pawn_promo_push_movs(m, bm, from) + pawn_target_movs(m.player, from, pawn_cap_targets(m, bm, from), m.enp_square as int, 64)
    } else if def::kind_of(p) == def::KIND_N {
        target_movs(from, bm.n_attack_masks[from] & opp, 64)
    } else if def::kind_of(p) == def::KIND_B {
        target_movs(from, bishop_attacks(from, occ) & opp, 64)
    } else if def::kind_of(p) == def::KIND_R {
        target_movs(from, rook_attacks(from, occ) & opp, 64)
    } else if def::kind_of(p) == def::KIND_Q {
        target_movs(from, (rook_attacks(from, occ) | bishop_attacks(from, occ)) & opp, 64)
    } else if def::kind_of(p) == def::KIND_K {
        target_movs(from, bm.k_attack_masks[from] & opp, 64)
    } else {
        Seq::empty()
    }
}

/// The moves of the pieces on the squares `lo..hi`, square by square.
pub open spec fn reg_movs_range(m: StateModel, bm: BitMask, lo: int, hi: int) -> Seq<u32>
    decreases hi - lo,
{
    if hi <= lo { Seq::empty() } else { reg_movs_range(m, bm, lo, hi - 1) + piece_reg_movs(m, bm, hi - 1) }
}

/// The captures and promotions of the pieces on the squares `lo..hi`, square by square.
pub open spec fn cap_movs_range(m: StateModel, bm: BitMask, lo: int, hi: int) -> Seq<u32>
    decreases hi - lo,
{
    if hi <= lo { Seq::empty() } else { cap_movs_range(m, bm, lo, hi - 1) + piece_cap_movs(m, bm, hi - 1) }
}

/// The squares from the lowest to the highest piece of the side to move.
pub open spec fn scan_lo(m: StateModel) -> int {
    u64_trailing_zeros(side_board(m.bitboard, m.player)) as int
}

pub open spec fn scan_hi(m: StateModel) -> int {
    64 - u64_leading_zeros(side_board(m.bitboard, m.player))
}

/// The castling moves of the side to move: for each right it still has, when king and rook
/// stand on their squares, the squares between are empty and the king's squares are not attacked.
pub open spec fn castle_movs(m: StateModel, bm: BitMask) -> Seq<u32> {
    let bb = m.bitboard;
    let cr = m.cas_rights;
    let all = occupied(bb);
    let p = m.player;
    if p == def::PLAYER_W {
        (if cr & 0b1000 != 0 && bb.w_all & CAS_WK_OCCUPY_MASK == CAS_WK_OCCUPY_MASK
            && bb.w_rook & CAS_WK_R_MASK == CAS_WK_R_MASK && all & CAS_WK_EMPTY_MASK == 0
            && !under_attack(m, bm, 6, p) && !under_attack(m, bm, 5, p) && !under_attack(m, bm, 4, p)
            { seq![enc(4, 6, def::MOV_CAS, 0)] } else { Seq::<u32>::empty() })
        + (if cr & 0b0100 != 0 && bb.w_all & CAS_WQ_OCCUPY_MASK == CAS_WQ_OCCUPY_MASK
            && bb.w_rook & CAS_WQ_R_MASK == CAS_WQ_R_MASK && all & CAS_WQ_EMPTY_MASK == 0
            && !under_attack(m, bm, 2, p) && !under_attack(m, bm, 3, p) && !under_attack(m, bm, 4, p)
            { seq![enc(4, 2, def::MOV_CAS, 0)] } else { Seq::<u32>::empty() })
    } else {
        (if cr & 0b0010 != 0 && bb.b_all & CAS_BK_OCCUPY_MASK == CAS_BK_OCCUPY_MASK
            && bb.b_rook & CAS_BK_R_MASK == CAS_BK_R_MASK && all & CAS_BK_EMPTY_MASK == 0
            && !under_attack(m, bm, 62, p) && !under_attack(m, bm, 61, p) && !under_attack(m, bm, 60, p)
            { seq![enc(60, 62, def::MOV_CAS, 0)] } else { Seq::<u32>::empty() })
        + (if cr & 0b0001 != 0 && bb.b_all & CAS_BQ_OCCUPY_MASK == CAS_BQ_OCCUPY_MASK
            && bb.b_rook & CAS_BQ_R_MASK == CAS_BQ_R_MASK && all & CAS_BQ_EMPTY_MASK == 0
            && !under_attack(m, bm, 58, p) && !under_attack(m, bm, 59, p) && !under_attack(m, bm, 60, p)
            { seq![enc(60, 58, def::MOV_CAS, 0)] } else { Seq::<u32>::empty() })
    }
}

/// All pseudo-legal moves of the side to move, in the order the list gets them: piece by
/// piece from the lowest square up, castling last.
pub open spec fn reg_movs(m: StateModel, bm: BitMask) -> Seq<u32> {
    reg_movs_range(m, bm, scan_lo(m), scan_hi(m)) + castle_movs(m, bm)
}

/// All captures and promotions of the side to move, piece by piece from the lowest square up.
pub open spec fn cap_movs(m: StateModel, bm: BitMask) -> Seq<u32> {
    cap_movs_range(m, bm, scan_lo(m), scan_hi(m))
}

proof fn lemma_reg_movs_range_len(m: StateModel, bm: BitMask, lo: int, k: int, hi: int)
    requires
        k <= hi,
    ensures
        reg_movs_range(m, bm, lo, k).len() <= reg_movs_range(m, bm, lo, hi).len(),
    decreases hi - k,
{
    if k < hi {
        lemma_reg_movs_range_len(m, bm, lo, k, hi - 1);
    }
}

proof fn lemma_cap_movs_range_len(m: StateModel, bm: BitMask, lo: int, k: int, hi: int)
    requires
        k <= hi,
    ensures
        cap_movs_range(m, bm, lo, k).len() <= cap_movs_range(m, bm, lo, hi).len(),
    decreases hi - k,
{
    if k < hi {
        lemma_cap_movs_range_len(m, bm, lo, k, hi - 1);
    }
}

/// A square of a non-empty board.
proof fn lemma_some_bit(x: u64) -> (j: int)
    requires
        x != 0,
    ensures
        0 <= j < 64,
        has_bit(x, j),
{
    lemma_zero_iff_no_bits(x);
    choose|j: int| 0 <= j < 64 && has_bit(x, j)
}


/// A board that meets `e` has a square of its own.
proof fn lemma_meets(x: u64, e: u64) -> (j: int)
    requires
        x & e != 0,
    ensures
        0 <= j < 64,
        has_bit(x, j),
{
    let j = lemma_some_bit(x & e);
    lemma_and_bit(x, e, j);
    j
}

/// Writes the forward moves of the pawn of the side to move on `from` (only the promotions
/// when `promo_only`).
fn push_pawn_forward<const N: usize>(state: &State, list: &mut [u32; N], count: usize, from: usize, promo_only: bool) -> (r: usize)
    requires
        can_probe(state@, *state.bitmask),
        from < 64,
        count + (if promo_only { pawn_promo_push_movs(state@, *state.bitmask, from as int) }
            else { pawn_push_movs(state@, *state.bitmask, from as int) }).len() <= N,
    ensures
        written(old(list)@, final(list)@, count as int, if promo_only { pawn_promo_push_movs(state@, *state.bitmask, from as int) }
            else { pawn_push_movs(state@, *state.bitmask, from as int) }),
        r == count + (if promo_only { pawn_promo_push_movs(state@, *state.bitmask, from as int) }
            else { pawn_push_movs(state@, *state.bitmask, from as int) }).len(),
{
    let bitmask = state.bitmask;
    let bitboard = state.bitboard;
    let empty_mask = !(bitboard.w_all | bitboard.b_all);
    let ghost l0 = list@;
    if state.player == def::PLAYER_W {
        if bitmask.wp_mov_masks[from] & empty_mask != 0 {
            proof {
                let j = lemma_meets(bitmask.wp_mov_masks[from as int], empty_mask);
                assert(has_bit(bitmask.wp_mov_masks[from as int], j) <==> crate::bitmask::wp_mov_rel(from as int, j));
            }
            let to = from + 8;
            if to > 55 {
                return add_pawn_target(list, count, def::PLAYER_W, from, to, 64);
            } else if promo_only {
                proof { lemma_written_none(list@, count as int); }
                return count;
            } else {
                let c = add_mov_w(list, count, from, to, def::MOV_REG, 0);
                if bitmask.wp_init_mov_masks[from] & empty_mask != 0 {
                    proof {
                        let j = lemma_meets(bitmask.wp_init_mov_masks[from as int], empty_mask);
                        assert(has_bit(bitmask.wp_init_mov_masks[from as int], j) <==> crate::bitmask::wp_init_mov_rel(from as int, j));
                    }
                    let ghost l1 = list@;
                    let c2 = add_mov_w(list, c, from, to + 8, def::MOV_CR_ENP, 0);
                    proof {
                        lemma_written_compose(l0, l1, list@, count as int, seq![enc(from as int, to as int, def::MOV_REG, 0)],
                            seq![enc(from as int, to + 8, def::MOV_CR_ENP, 0)]);
                    }
                    return c2;
                } else {
                    assert(seq![enc(from as int, to as int, def::MOV_REG, 0)] + Seq::<u32>::empty()
                        =~= seq![enc(from as int, to as int, def::MOV_REG, 0)]);
                    return c;
                }
            }
        } else {
            proof { lemma_written_none(list@, count as int); }
            return count;
        }
    } else {
        if bitmask.bp_mov_masks[from] & empty_mask != 0 {
            proof {
                let j = lemma_meets(bitmask.bp_mov_masks[from as int], empty_mask);
                assert(has_bit(bitmask.bp_mov_masks[from as int], j) <==> crate::bitmask::bp_mov_rel(from as int, j));
            }
            let to = from - 8;
            if to < 8 {
                return add_pawn_target(list, count, state.player, from, to, 64);
            } else if promo_only {
                proof { lemma_written_none(list@, count as int); }
                return count;
            } else {
                let c = add_mov_w(list, count, from, to, def::MOV_REG, 0);
                if bitmask.bp_init_mov_masks[from] & empty_mask != 0 {
                    proof {
                        let j = lemma_meets(bitmask.bp_init_mov_masks[from as int], empty_mask);
                        assert(has_bit(bitmask.bp_init_mov_masks[from as int], j) <==> crate::bitmask::bp_init_mov_rel(from as int, j));
                    }
                    let ghost l1 = list@;
                    let c2 = add_mov_w(list, c, from, to - 8, def::MOV_CR_ENP, 0);
                    proof {
                        lemma_written_compose(l0, l1, list@, count as int, seq![enc(from as int, to as int, def::MOV_REG, 0)],
                            seq![enc(from as int, to - 8, def::MOV_CR_ENP, 0)]);
                    }
                    return c2;
                } else {
                    assert(seq![enc(from as int, to as int, def::MOV_REG, 0)] + Seq::<u32>::empty()
                        =~= seq![enc(from as int, to as int, def::MOV_REG, 0)]);
                    return c;
                }
            }
        } else {
            proof { lemma_written_none(list@, count as int); }
            return count;
        }
    }
}

/// The squares the pawn of the side to move on `from` captures on.
fn pawn_cap_targets_exec(state: &State, from: usize) -> (r: u64)
    requires
        can_probe(state@, *state.bitmask),
        from < 64,
    ensures
        r == pawn_cap_targets(state@, *state.bitmask, from as int),
{
    let bitmask = state.bitmask;
    let bitboard = state.bitboard;
    let enp_square_index = state.enp_square;
    if state.player == def::PLAYER_W {
        bitmask.wp_attack_masks[from] & (bitboard.b_all | bitmask.index_masks[enp_square_index])
    } else {
        bitmask.bp_attack_masks[from] & (bitboard.w_all | (bitmask.index_masks[enp_square_index] & ENP_SQRS_MASK))
    }
}

/// Writes the moves of the piece on `from` (all of them, or only captures and promotions
/// when `caps_only`) and returns the new count.
fn push_piece_movs<const N: usize>(state: &State, list: &mut [u32; N], count: usize, from: usize, caps_only: bool) -> (r: usize)
    requires
        can_probe(state@, *state.bitmask),
        from < 64,
        count + (if caps_only { piece_cap_movs(state@, *state.bitmask, from as int) }
            else { piece_reg_movs(state@, *state.bitmask, from as int) }).len() <= N,
    ensures
        written(old(list)@, final(list)@, count as int, if caps_only { piece_cap_movs(state@, *state.bitmask, from as int) }
            else { piece_reg_movs(state@, *state.bitmask, from as int) }),
        r == count + (if caps_only { piece_cap_movs(state@, *state.bitmask, from as int) }
            else { piece_reg_movs(state@, *state.bitmask, from as int) }).len(),
{
    let ghost m = state@;
    let ghost bm = *state.bitmask;
    let player = state.player;
    let bitboard = state.bitboard;
    let bitmask = state.bitmask;
    let occupy_mask = bitboard.w_all | bitboard.b_all;
    let (self_mask, opponent_mask) = if player == def::PLAYER_W {
        (bitboard.w_all, bitboard.b_all)
    } else {
        (bitboard.b_all, bitboard.w_all)
    };
    let keep = if caps_only { opponent_mask } else { !self_mask };
    let moving_piece = state.squares[from];

    if !def::on_same_side(player, moving_piece) {
        proof { lemma_written_none(list@, count as int); }
        return count;
    }

    if def::is_p(moving_piece) {
        let ghost fwd = if caps_only { pawn_promo_push_movs(m, bm, from as int) } else { pawn_push_movs(m, bm, from as int) };
        let ghost caps = pawn_target_movs(player, from as int, pawn_cap_targets(m, bm, from as int), m.enp_square as int, 64);
        let ghost l0 = list@;
        let c = push_pawn_forward(state, list, count, from, caps_only);
        let ghost l1 = list@;
        let targets = pawn_cap_targets_exec(state, from);
        let c2 = push_pawn_targets(list, c, player, from, targets, state.enp_square);
        proof { lemma_written_compose(l0, l1, list@, count as int, fwd, caps); }
        c2
    } else if def::is_n(moving_piece) {
        push_targets(list, count, from, bitmask.n_attack_masks[from] & keep)
    } else if def::is_b(moving_piece) {
        let mov_mask = diag_up_lookup(bitmask, from, occupy_mask) | diag_down_lookup(bitmask, from, occupy_mask);
        push_targets(list, count, from, mov_mask & keep)
    } else if def::is_r(moving_piece) {
        let mov_mask = horizontal_lookup(bitmask, from, occupy_mask) | vertical_lookup(bitmask, from, occupy_mask);
        push_targets(list, count, from, mov_mask & keep)
    } else if def::is_q(moving_piece) {
        let rook_mask = horizontal_lookup(bitmask, from, occupy_mask) | vertical_lookup(bitmask, from, occupy_mask);
        let bishop_mask = diag_up_lookup(bitmask, from, occupy_mask) | diag_down_lookup(bitmask, from, occupy_mask);
        push_targets(list, count, from, (rook_mask | bishop_mask) & keep)
    } else if def::is_k(moving_piece) {
        push_targets(list, count, from, bitmask.k_attack_masks[from] & keep)
    } else {
        proof { lemma_written_none(list@, count as int); }
        count
    }
}


/// The square range to scan: from the lowest to past the highest square of `self_mask`.
fn scan_range(self_mask: u64) -> (r: (usize, usize))
    ensures
        r.0 == u64_trailing_zeros(self_mask),
        r.1 == 64 - u64_leading_zeros(self_mask),
        r.0 <= 64,
        r.1 <= 64,
{
    proof {
        axiom_u64_trailing_zeros(self_mask);
        axiom_u64_leading_zeros(self_mask);
    }
    let start_index = self_mask.trailing_zeros() as usize;
    let end_index = 64 - self_mask.leading_zeros() as usize;
    (start_index, end_index)
}

/// Writes the moves (or only the captures and promotions) of the pieces on `lo..hi`.
fn push_range<const N: usize>(state: &State, list: &mut [u32; N], lo: usize, hi: usize, caps_only: bool) -> (r: usize)
    requires
        can_probe(state@, *state.bitmask),
        hi <= 64,
        (if caps_only { cap_movs_range(state@, *state.bitmask, lo as int, hi as int) }
            else { reg_movs_range(state@, *state.bitmask, lo as int, hi as int) }).len() <= N,
    ensures
        written(old(list)@, final(list)@, 0, if caps_only { cap_movs_range(state@, *state.bitmask, lo as int, hi as int) }
            else { reg_movs_range(state@, *state.bitmask, lo as int, hi as int) }),
        r == (if caps_only { cap_movs_range(state@, *state.bitmask, lo as int, hi as int) }
            else { reg_movs_range(state@, *state.bitmask, lo as int, hi as int) }).len(),
{
    let ghost m = state@;
    let ghost bm = *state.bitmask;
    let ghost orig = list@;
    let mut count: usize = 0;
    proof { lemma_written_none(list@, 0); }
    if hi <= lo {
        return 0;
    }
    let mut from: usize = lo;
    assert(reg_movs_range(m, bm, lo as int, lo as int) =~= Seq::<u32>::empty());
    assert(cap_movs_range(m, bm, lo as int, lo as int) =~= Seq::<u32>::empty());
    while from < hi
        invariant
            can_probe(state@, *state.bitmask),
            m == state@,
            bm == *state.bitmask,
            lo <= from <= hi <= 64,
            (if caps_only { cap_movs_range(m, bm, lo as int, hi as int) }
                else { reg_movs_range(m, bm, lo as int, hi as int) }).len() <= N,
            orig.len() == N,
            written(orig, list@, 0, if caps_only { cap_movs_range(m, bm, lo as int, from as int) }
                else { reg_movs_range(m, bm, lo as int, from as int) }),
            count == (if caps_only { cap_movs_range(m, bm, lo as int, from as int) }
                else { reg_movs_range(m, bm, lo as int, from as int) }).len(),
        decreases hi - from,
    {
        let ghost before = list@;
        let ghost done = if caps_only { cap_movs_range(m, bm, lo as int, from as int) }
            else { reg_movs_range(m, bm, lo as int, from as int) };
        let ghost piece = if caps_only { piece_cap_movs(m, bm, from as int) } else { piece_reg_movs(m, bm, from as int) };
        proof {
            lemma_reg_movs_range_len(m, bm, lo as int, from + 1, hi as int);
            lemma_cap_movs_range_len(m, bm, lo as int, from + 1, hi as int);
            assert(done + piece == if caps_only { cap_movs_range(m, bm, lo as int, from + 1) }
                else { reg_movs_range(m, bm, lo as int, from + 1) });
        }
        count = push_piece_movs(state, list, count, from, caps_only);
        proof { lemma_written_compose(orig, before, list@, 0, done, piece); }
        from = from + 1;
    }
    count
}

/// Writes one castling move when `ok`.
fn push_castle<const N: usize>(list: &mut [u32; N], count: usize, ok: bool, to: usize) -> (r: usize)
    requires
        to < 64,
        ok ==> count < N,
        count <= N,
    ensures
        r == count + (if ok { 1int } else { 0 }),
        written(old(list)@, final(list)@, count as int,
            if ok { seq![enc(if to < 8 { 4 } else { 60 }, to as int, def::MOV_CAS, 0)] } else { Seq::<u32>::empty() }),
{
    if ok {
        let k: usize = if to < 8 { 4 } else { 60 };
        add_mov_w(list, count, k, to, def::MOV_CAS, 0)
    } else {
        proof { lemma_written_none(list@, count as int); }
        count
    }
}

/// Writes every pseudo-legal move of the side to move into `mov_list` from its start: the
/// moves of each piece from the lowest square up, then castling. The entries after them are
/// left as they were.
pub fn gen_reg_mov_list(state: &State, mov_list: &mut [u32; def::MAX_MOV_COUNT])
    requires
        can_probe(state@, *state.bitmask),
        reg_movs(state@, *state.bitmask).len() <= def::MAX_MOV_COUNT,
    ensures
        written(old(mov_list)@, final(mov_list)@, 0, reg_movs(state@, *state.bitmask)),
{
    let ghost m = state@;
    let ghost bm = *state.bitmask;
    let ghost l0 = mov_list@;
    let player = state.player;
    let bitboard = state.bitboard;
    let self_mask = if player == def::PLAYER_W { bitboard.w_all } else { bitboard.b_all };
    let (start_index, end_index) = scan_range(self_mask);

    let c = push_range(state, mov_list, start_index, end_index, false);
    let ghost l1 = mov_list@;
    let ghost pieces = reg_movs_range(m, bm, start_index as int, end_index as int);

    let cas_rights = state.cas_rights;
    let all_mask = bitboard.w_all | bitboard.b_all;

    if player == def::PLAYER_W {
        let wk = cas_rights & 0b1000 != 0
            && bitboard.w_all & CAS_WK_OCCUPY_MASK == CAS_WK_OCCUPY_MASK
            && bitboard.w_rook & CAS_WK_R_MASK == CAS_WK_R_MASK
            && all_mask & CAS_WK_EMPTY_MASK == 0
            && !is_under_attack(state, def::CAS_SQUARE_WK, def::PLAYER_W)
            && !is_under_attack(state, def::CAS_SQUARE_WK - 1, def::PLAYER_W)
            && !is_under_attack(state, def::CAS_SQUARE_WK - 2, def::PLAYER_W);
        let ghost first = if wk { seq![enc(4, 6, def::MOV_CAS, 0)] } else { Seq::<u32>::empty() };
        let c1 = push_castle(mov_list, c, wk, def::CAS_SQUARE_WK);
        let ghost l2 = mov_list@;
        let wq = cas_rights & 0b0100 != 0
            && bitboard.w_all & CAS_WQ_OCCUPY_MASK == CAS_WQ_OCCUPY_MASK
            && bitboard.w_rook & CAS_WQ_R_MASK == CAS_WQ_R_MASK
            && all_mask & CAS_WQ_EMPTY_MASK == 0
            && !is_under_attack(state, def::CAS_SQUARE_WQ, def::PLAYER_W)
            && !is_under_attack(state, def::CAS_SQUARE_WQ + 1, def::PLAYER_W)
            && !is_under_attack(state, def::CAS_SQUARE_WQ + 2, def::PLAYER_W);
        let ghost second = if wq { seq![enc(4, 2, def::MOV_CAS, 0)] } else { Seq::<u32>::empty() };
        let _c2 = push_castle(mov_list, c1, wq, def::CAS_SQUARE_WQ);
        proof {
            assert(castle_movs(m, bm) == first + second);
            lemma_written_compose(l0, l1, l2, 0, pieces, first);
            lemma_written_compose(l0, l2, mov_list@, 0, pieces + first, second);
            assert(pieces + first + second =~= reg_movs(m, bm));
        }
    } else {
        let bk = cas_rights & 0b0010 != 0
            && bitboard.b_all & CAS_BK_OCCUPY_MASK == CAS_BK_OCCUPY_MASK
            && bitboard.b_rook & CAS_BK_R_MASK == CAS_BK_R_MASK
            && all_mask & CAS_BK_EMPTY_MASK == 0
            && !is_under_attack(state, def::CAS_SQUARE_BK, player)
            && !is_under_attack(state, def::CAS_SQUARE_BK - 1, player)
            && !is_under_attack(state, def::CAS_SQUARE_BK - 2, player);
        let ghost first = if bk { seq![enc(60, 62, def::MOV_CAS, 0)] } else { Seq::<u32>::empty() };
        let c1 = push_castle(mov_list, c, bk, def::CAS_SQUARE_BK);
        let ghost l2 = mov_list@;
        let bq = cas_rights & 0b0001 != 0
            && bitboard.b_all & CAS_BQ_OCCUPY_MASK == CAS_BQ_OCCUPY_MASK
            && bitboard.b_rook & CAS_BQ_R_MASK == CAS_BQ_R_MASK
            && all_mask & CAS_BQ_EMPTY_MASK == 0
            && !is_under_attack(state, def::CAS_SQUARE_BQ, player)
            && !is_under_attack(state, def::CAS_SQUARE_BQ + 1, player)
            && !is_under_attack(state, def::CAS_SQUARE_BQ + 2, player);
        let ghost second = if bq { seq![enc(60, 58, def::MOV_CAS, 0)] } else { Seq::<u32>::empty() };
        let _c2 = push_castle(mov_list, c1, bq, def::CAS_SQUARE_BQ);
        proof {
            assert(castle_movs(m, bm) == first + second);
            lemma_written_compose(l0, l1, l2, 0, pieces, first);
            lemma_written_compose(l0, l2, mov_list@, 0, pieces + first, second);
            assert(pieces + first + second =~= reg_movs(m, bm));
        }
    }
}

/// Writes every capture and promotion of the side to move into `cap_list` from its start,
/// piece by piece from the lowest square up. The entries after them are left as they were.
pub fn gen_capture_and_promo_list(state: &State, cap_list: &mut [u32; def::MAX_CAP_COUNT])
    requires
        can_probe(state@, *state.bitmask),
        cap_movs(state@, *state.bitmask).len() <= def::MAX_CAP_COUNT,
    ensures
        written(old(cap_list)@, final(cap_list)@, 0, cap_movs(state@, *state.bitmask)),
{
    let player = state.player;
    let bitboard = state.bitboard;
    let self_mask = if player == def::PLAYER_W { bitboard.w_all } else { bitboard.b_all };
    let (start_index, end_index) = scan_range(self_mask);
    push_range(state, cap_list, start_index, end_index, true);
}


/// A capture from `from` onto `to` by the side to move leaves its own king unattacked.
pub open spec fn valid_attacker(m: StateModel, keys: Seq<Vec<u64>>, bm: BitMask, from: int, to: int) -> bool {
    !in_check(do_mov_model(m, keys, from, to, def::MOV_REG, 0), bm, m.player)
}

/// The lowest square from `k` on of `cands` whose piece may capture on `to` (64 when none).
pub open spec fn first_valid(m: StateModel, keys: Seq<Vec<u64>>, bm: BitMask, cands: u64, to: int, k: int) -> int
    decreases 64 - k,
{
    if k >= 64 {
        64
    } else if has_bit(cands, k) && valid_attacker(m, keys, bm, k, to) {
        k
    } else {
        first_valid(m, keys, bm, cands, to, k + 1)
    }
}

/// The cheapest piece of the side to move that may capture on `index` without leaving its
/// king attacked: pawn, knight, bishop, rook, queen, then the king (whose capture is not
/// tested), as (piece, move kind, promotion, origin); all zero when there is none.
/// Bishops and rooks look through the other pieces of their kind and queens.
pub open spec fn smallest_attacker(m: StateModel, keys: Seq<Vec<u64>>, bm: BitMask, index: int) -> (u8, u8, u8, usize) {
    let bb = m.bitboard;
    let w = m.player == def::PLAYER_W;
    let pawn_cands = if w { bm.bp_attack_masks[index] & bb.w_pawn } else { bm.wp_attack_masks[index] & bb.b_pawn };
    let knights = if w { bb.w_knight } else { bb.b_knight };
    let bishops = if w { bb.w_bishop } else { bb.b_bishop };
    let rooks = if w { bb.w_rook } else { bb.b_rook };
    let queens = if w { bb.w_queen } else { bb.b_queen };
    let king = if w { m.wk_index } else { m.bk_index };
    let bqa = bishop_attacks(index, bishops | queens);
    let rqa = rook_attacks(index, rooks | queens);
    let p = first_valid(m, keys, bm, pawn_cands, index, 0);
    let n = first_valid(m, keys, bm, bm.n_attack_masks[index] & knights, index, 0);
    let b = first_valid(m, keys, bm, bqa & bishops, index, 0);
    let r = first_valid(m, keys, bm, rqa & rooks, index, 0);
    let q = first_valid(m, keys, bm, (bqa | rqa) & queens, index, 0);
    if p < 64 {
        if w {
            if index > 55 { (def::WP, def::MOV_PROMO, def::WQ, p as usize) } else { (def::WP, def::MOV_REG, 0, p as usize) }
        } else {
            if index < 8 { (def::BP, def::MOV_PROMO, def::BQ, p as usize) } else { (def::BP, def::MOV_REG, 0, p as usize) }
        }
    } else if n < 64 {
        (if w { def::WN } else { def::BN }, def::MOV_REG, 0, n as usize)
    } else if b < 64 {
        (if w { def::WB } else { def::BB }, def::MOV_REG, 0, b as usize)
    } else if r < 64 {
        (if w { def::WR } else { def::BR }, def::MOV_REG, 0, r as usize)
    } else if q < 64 {
        (if w { def::WQ } else { def::BQ }, def::MOV_REG, 0, q as usize)
    } else if has_bit(bm.k_attack_masks[index], king as int) {
        (if w { def::WK } else { def::BK }, def::MOV_REG, 0, king)
    } else {
        (0, 0, 0, 0)
    }
}

/// A slider never reaches its own square.
proof fn lemma_walk_not_self(s: int, dr: int, df: int, occ: u64, k: int)
    requires
        0 <= s < 64,
        -1 <= dr <= 1,
        -1 <= df <= 1,
        dr != 0 || df != 0,
        k >= 0,
    ensures
        !has_bit(walk_board(s, dr, df, occ, k), s),
    decreases ray_len(s, dr, df) - k,
{
    if k < ray_len(s, dr, df) {
        lemma_walk_not_self(s, dr, df, occ, k + 1);
        lemma_ray_on_board(s, dr, df, k);
        let t = ray_sq(s, dr, df, k);
        let rest = if has_bit(occ, t) { 0 } else { walk_board(s, dr, df, occ, k + 1) };
        lemma_or_bit(single(t), rest, s);
        crate::bits::lemma_single_bit(t, s);
        lemma_zero_bit(s);
        assert(t != s) by {
            assert(s == 8 * (s / 8) + s % 8);
        }
    } else {
        lemma_zero_bit(s);
    }
}

proof fn lemma_line_not_self(s: int, dr: int, df: int, occ: u64)
    requires
        0 <= s < 64,
        -1 <= dr <= 1,
        -1 <= df <= 1,
        dr != 0 || df != 0,
    ensures
        !has_bit(line_board(s, dr, df, occ), s),
{
    lemma_walk_not_self(s, dr, df, occ, 0);
    lemma_walk_not_self(s, -dr, -df, occ, 0);
    lemma_or_bit(walk_board(s, dr, df, occ, 0), walk_board(s, -dr, -df, occ, 0), s);
}

/// Plays the capture from `from` onto `to`, tests whether the mover's king is attacked,
/// and takes the capture back.
pub fn is_valid_attacker(state: &mut State, from: usize, to: usize) -> (r: bool)
    requires
        old(state).wf(),
        can_probe(old(state)@, *old(state).bitmask),
        can_do_mov(old(state)@, from as int, to as int, def::MOV_REG, 0),
        can_restore(old(state)@, from as int, to as int, def::MOV_REG),
    ensures
        final(state)@ == old(state)@,
        final(state).zob_keys == old(state).zob_keys,
        final(state).bitmask == old(state).bitmask,
        r == valid_attacker(old(state)@, old(state).zob_keys@, *old(state).bitmask, from as int, to as int),
{
    let ghost m = state@;
    let ghost keys = state.zob_keys@;
    proof { lemma_undo_mov_restores(m, keys, from as int, to as int, def::MOV_REG, 0); }
    state.do_mov(from, to, def::MOV_REG, 0);
    let mover = def::get_opposite_player(state.player);
    let in_check = is_in_check(state, mover);
    state.undo_mov(from, to, def::MOV_REG);
    !in_check
}

proof fn lemma_first_valid_none(m: StateModel, keys: Seq<Vec<u64>>, bm: BitMask, cands: u64, to: int, k: int)
    requires
        0 <= k,
        forall|j: int| k <= j < 64 ==> !#[trigger] has_bit(cands, j),
    ensures
        first_valid(m, keys, bm, cands, to, k) == 64,
    decreases 64 - k,
{
    if k < 64 {
        lemma_first_valid_none(m, keys, bm, cands, to, k + 1);
    }
}

proof fn lemma_first_valid_bound(m: StateModel, keys: Seq<Vec<u64>>, bm: BitMask, cands: u64, to: int, k: int)
    requires
        0 <= k <= 64,
    ensures
        k <= first_valid(m, keys, bm, cands, to, k) <= 64,
        first_valid(m, keys, bm, cands, to, k) < 64 ==> has_bit(cands, first_valid(m, keys, bm, cands, to, k)),
    decreases 64 - k,
{
    if k < 64 {
        lemma_first_valid_bound(m, keys, bm, cands, to, k + 1);
    }
}

/// The lowest square of `cands` whose piece may capture on `to` (64 when none).
fn find_valid_attacker(state: &mut State, cands: u64, to: usize) -> (r: usize)
    requires
        old(state).wf(),
        can_probe(old(state)@, *old(state).bitmask),
        to < 64,
        !has_bit(cands, to as int),
        old(state)@.non_cap_mov_count < u16::MAX,
    ensures
        final(state)@ == old(state)@,
        final(state).zob_keys == old(state).zob_keys,
        final(state).bitmask == old(state).bitmask,
        r == first_valid(old(state)@, old(state).zob_keys@, *old(state).bitmask, cands, to as int, 0),
{
    let ghost m = state@;
    let ghost keys = state.zob_keys@;
    let ghost bm = *state.bitmask;
    let ghost zk = state.zob_keys;
    let ghost bmr = state.bitmask;
    let mut attack_mask = cands;
    let mut attack_index: usize = 0;
    proof { bv_shift_step(cands, 0, 0); }
    while attack_mask != 0
        invariant
            state@ == m,
            m == old(state)@,
            zk == old(state).zob_keys,
            bmr == old(state).bitmask,
            state.zob_keys == zk,
            state.bitmask == bmr,
            keys == zk@,
            bm == *bmr,
            state.wf(),
            can_probe(m, bm),
            to < 64,
            !has_bit(cands, to as int),
            m.non_cap_mov_count < u16::MAX,
            attack_index <= 64,
            attack_index < 64 ==> attack_mask == cands >> (attack_index as u64),
            attack_index == 64 ==> attack_mask == 0,
            first_valid(m, keys, bm, cands, to as int, 0) == first_valid(m, keys, bm, cands, to as int, attack_index as int),
        decreases 64 - attack_index,
    {
        assert(attack_index < 64);
        proof { bv_shift_step(cands, attack_index as u64, attack_index as u64); }
        if attack_mask & 1u64 != 0 {
            assert(has_bit(cands, attack_index as int));
            if is_valid_attacker(state, attack_index, to) {
                return attack_index;
            }
        }
        attack_mask = attack_mask >> 1u64;
        attack_index = attack_index + 1;
    }
    proof {
        if attack_index < 64 {
            assert forall|j: int| attack_index <= j < 64 implies !#[trigger] has_bit(cands, j) by {
                bv_shift_step(cands, attack_index as u64, j as u64);
            }
        }
        lemma_first_valid_none(m, keys, bm, cands, to as int, attack_index as int);
    }
    64
}


proof fn lemma_and_comm(x: u64, y: u64)
    ensures
        x & y == y & x,
{
    assert forall|j: int| 0 <= j < 64 implies has_bit(x & y, j) == has_bit(y & x, j) by {
        lemma_and_bit(x, y, j);
        lemma_and_bit(y, x, j);
    }
    crate::bits::lemma_eq_by_bits(x & y, y & x);
}

proof fn lemma_not_in_and(x: u64, y: u64, s: int)
    requires
        !has_bit(x, s),
    ensures
        !has_bit(x & y, s),
{
    lemma_and_bit(x, y, s);
}

proof fn lemma_not_in_or(x: u64, y: u64, s: int)
    requires
        !has_bit(x, s),
        !has_bit(y, s),
    ensures
        !has_bit(x | y, s),
{
    lemma_or_bit(x, y, s);
}

/// The cheapest piece of the side to move that may capture on `index` without leaving its
/// king attacked, as (piece, move kind, promotion, origin), all zero when there is none.
/// The position is the same afterwards.
pub fn get_smallest_attacker_index(state: &mut State, index: usize) -> (r: (u8, u8, u8, usize))
    requires
        old(state).wf(),
        can_probe(old(state)@, *old(state).bitmask),
        index < 64,
        old(state)@.non_cap_mov_count < u16::MAX,
    ensures
        final(state)@ == old(state)@,
        final(state).zob_keys == old(state).zob_keys,
        final(state).bitmask == old(state).bitmask,
        r == smallest_attacker(old(state)@, old(state).zob_keys@, *old(state).bitmask, index as int),
{
    let ghost m = state@;
    let ghost keys = state.zob_keys@;
    let ghost bm = *state.bitmask;
    let bitmask = state.bitmask;
    let bitboard = state.bitboard;
    let player = state.player;
    let w = player == def::PLAYER_W;
    let ghost i = index as int;

    let pawn_cands = if w { bitmask.bp_attack_masks[index] & bitboard.w_pawn } else { bitmask.wp_attack_masks[index] & bitboard.b_pawn };
    let knights = if w { bitboard.w_knight } else { bitboard.b_knight };
    let bishops = if w { bitboard.w_bishop } else { bitboard.b_bishop };
    let rooks = if w { bitboard.w_rook } else { bitboard.b_rook };
    let queens = if w { bitboard.w_queen } else { bitboard.b_queen };

    proof {
        assert(has_bit(bm.bp_attack_masks[i], i) <==> crate::bitmask::bp_attack_rel(i, i));
        assert(has_bit(bm.wp_attack_masks[i], i) <==> crate::bitmask::wp_attack_rel(i, i));
        assert(has_bit(bm.n_attack_masks[i], i) <==> crate::bitmask::knight_rel(i, i));
        lemma_not_in_and(bm.bp_attack_masks[i], bitboard.w_pawn, i);
        lemma_not_in_and(bm.wp_attack_masks[i], bitboard.b_pawn, i);
        lemma_not_in_and(bm.n_attack_masks[i], knights, i);
    }
    let p = find_valid_attacker(state, pawn_cands, index);
    if p < 64 {
        if w {
            if index > 55 {
                return (def::WP, def::MOV_PROMO, def::WQ, p);
            } else {
                return (def::WP, def::MOV_REG, 0, p);
            }
        } else {
            if index < 8 {
                return (def::BP, def::MOV_PROMO, def::BQ, p);
            } else {
                return (def::BP, def::MOV_REG, 0, p);
            }
        }
    }

    let n = find_valid_attacker(state, bitmask.n_attack_masks[index] & knights, index);
    if n < 64 {
        return (if w { def::WN } else { def::BN }, def::MOV_REG, 0, n);
    }

    let bq_mask = bishops | queens;
    let bq_attack_mask = diag_up_lookup(bitmask, index, bq_mask) | diag_down_lookup(bitmask, index, bq_mask);
    let rq_mask = rooks | queens;
    let rq_attack_mask = horizontal_lookup(bitmask, index, rq_mask) | vertical_lookup(bitmask, index, rq_mask);
    proof {
        lemma_line_not_self(i, 1, 1, bq_mask);
        lemma_line_not_self(i, 1, -1, bq_mask);
        lemma_line_not_self(i, 0, 1, rq_mask);
        lemma_line_not_self(i, 1, 0, rq_mask);
        lemma_not_in_or(line_board(i, 1, 1, bq_mask), line_board(i, 1, -1, bq_mask), i);
        lemma_not_in_or(line_board(i, 0, 1, rq_mask), line_board(i, 1, 0, rq_mask), i);
        lemma_not_in_or(bq_attack_mask, rq_attack_mask, i);
        lemma_not_in_and(bq_attack_mask, bishops, i);
        lemma_not_in_and(rq_attack_mask, rooks, i);
        lemma_not_in_and(bq_attack_mask | rq_attack_mask, queens, i);
    }

    let b = find_valid_attacker(state, bq_attack_mask & bishops, index);
    if b < 64 {
        return (if w { def::WB } else { def::BB }, def::MOV_REG, 0, b);
    }

    let r = find_valid_attacker(state, rq_attack_mask & rooks, index);
    if r < 64 {
        return (if w { def::WR } else { def::BR }, def::MOV_REG, 0, r);
    }

    let q = find_valid_attacker(state, (bq_attack_mask | rq_attack_mask) & queens, index);
    if q < 64 {
        return (if w { def::WQ } else { def::BQ }, def::MOV_REG, 0, q);
    }

    let king = if w { state.wk_index } else { state.bk_index };
    proof {
        lemma_single_and(king as int, bm.k_attack_masks[i]);
        lemma_and_comm(bm.k_attack_masks[i], single(king as int));
    }
    if bitmask.k_attack_masks[index] & bitmask.index_masks[king] != 0 {
        return (if w { def::WK } else { def::BK }, def::MOV_REG, 0, king);
    }
    (0, 0, 0, 0)
}

} // verus!
