//! How many moves the generator can list: at most 92 for a piece (a pawn's four pushes,
//! and its captures, four promotions each on the last rank), so at most `MAX_MOV_COUNT`
//! moves and `MAX_CAP_COUNT` captures for any position.
use vstd::prelude::*;
use crate::bitmask::BitMask;
use crate::def;
use crate::mov_table::{target_movs, pawn_target_mov, pawn_target_movs, pawn_push_movs, pawn_promo_push_movs,
    piece_reg_movs, piece_cap_movs, reg_movs_range, cap_movs_range, castle_movs, reg_movs, cap_movs,
    scan_lo, scan_hi};
use crate::state::StateModel;

verus! {

/// The squares below `n` on which a pawn of `player` promotes.
pub open spec fn promo_squares_below(player: u8, n: int) -> int {
    if player == def::PLAYER_W {
        if n <= 56 { 0 } else if n >= 64 { 8 } else { n - 56 }
    } else {
        if n <= 0 { 0 } else if n >= 8 { 8 } else { n }
    }
}

proof fn lemma_target_movs_len(from: int, targets: u64, n: int)
    requires
        n >= 0,
    ensures
        target_movs(from, targets, n).len() <= n,
    decreases n,
{
    if n > 0 {
        lemma_target_movs_len(from, targets, n - 1);
    }
}

proof fn lemma_pawn_target_movs_len(player: u8, from: int, targets: u64, enp: int, n: int)
    requires
        0 <= n <= 64,
    ensures
        pawn_target_movs(player, from, targets, enp, n).len() <= n + 3 * promo_squares_below(player, n),
    decreases n,
{
    if n > 0 {
        lemma_pawn_target_movs_len(player, from, targets, enp, n - 1);
        let t = n - 1;
        assert(pawn_target_mov(player, from, t, enp).len() <= 4);
        if !((player == def::PLAYER_W && t > 55) || (player != def::PLAYER_W && t < 8)) {
            assert(pawn_target_mov(player, from, t, enp).len() == 1);
        }
    }
}

/// A piece has at most 92 moves, and at most 92 captures and promotions.
pub proof fn lemma_piece_movs_len(m: StateModel, bm: BitMask, from: int)
    ensures
        piece_reg_movs(m, bm, from).len() <= 92,
        piece_cap_movs(m, bm, from).len() <= 92,
{
    lemma_pawn_target_movs_len(m.player, from, crate::mov_table::pawn_cap_targets(m, bm, from), m.enp_square as int, 64);
    assert(pawn_push_movs(m, bm, from).len() <= 4);
    assert(pawn_promo_push_movs(m, bm, from).len() <= 4);
    let p = m.squares[from];
    let bb = m.bitboard;
    let own = crate::mov_table::side_board(bb, m.player);
    let opp = crate::mov_table::side_board(bb, def::opposite(m.player));
    let occ = crate::mov_table::occupied(bb);
    lemma_target_movs_len(from, bm.n_attack_masks[from] & !own, 64);
    lemma_target_movs_len(from, crate::mov_table::bishop_attacks(from, occ) & !own, 64);
    lemma_target_movs_len(from, crate::mov_table::rook_attacks(from, occ) & !own, 64);
    lemma_target_movs_len(from, (crate::mov_table::rook_attacks(from, occ) | crate::mov_table::bishop_attacks(from, occ)) & !own, 64);
    lemma_target_movs_len(from, bm.k_attack_masks[from] & !own, 64);
    lemma_target_movs_len(from, bm.n_attack_masks[from] & opp, 64);
    lemma_target_movs_len(from, crate::mov_table::bishop_attacks(from, occ) & opp, 64);
    lemma_target_movs_len(from, crate::mov_table::rook_attacks(from, occ) & opp, 64);
    lemma_target_movs_len(from, (crate::mov_table::rook_attacks(from, occ) | crate::mov_table::bishop_attacks(from, occ)) & opp, 64);
    lemma_target_movs_len(from, bm.k_attack_masks[from] & opp, 64);
}

proof fn lemma_ranges_len(m: StateModel, bm: BitMask, lo: int, hi: int)
    ensures
        reg_movs_range(m, bm, lo, hi).len() <= 92 * (if hi > lo { hi - lo } else { 0 }),
        cap_movs_range(m, bm, lo, hi).len() <= 92 * (if hi > lo { hi - lo } else { 0 }),
    decreases hi - lo,
{
    if hi > lo {
        lemma_ranges_len(m, bm, lo, hi - 1);
        lemma_piece_movs_len(m, bm, hi - 1);
    }
}

/// The move list and the capture list of any position fit their arrays.
pub proof fn lemma_mov_lists_fit(m: StateModel, bm: BitMask)
    ensures
        reg_movs(m, bm).len() <= def::MAX_MOV_COUNT,
        cap_movs(m, bm).len() <= def::MAX_CAP_COUNT,
{
    let lo = scan_lo(m);
    let hi = scan_hi(m);
    assert(lo >= 0);
    assert(hi <= 64);
    lemma_ranges_len(m, bm, lo, hi);
    assert(castle_movs(m, bm).len() <= 2);
}

} // verus!
