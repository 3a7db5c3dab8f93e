//! The captures-and-promotions list is the full move list with its quiet moves left out.
use vstd::prelude::*;
use crate::bits::{has_bit, single, lemma_and_bit, lemma_or_bit, lemma_not_bit, lemma_single_bit, lemma_zero_iff_no_bits};
use crate::bitboard::matches_squares;
use crate::bitmask::{BitMask, index_masks_ok, wp_mov_rel, bp_mov_rel, wp_init_mov_rel, bp_init_mov_rel};
use crate::def;
use crate::mov_gen::{enc, promos};
use crate::mov_table::{target_movs, pawn_target_mov, pawn_target_movs, pawn_push_movs, pawn_promo_push_movs,
    pawn_cap_targets, piece_reg_movs, piece_cap_movs, reg_movs_range, cap_movs_range, castle_movs, reg_movs,
    cap_movs, side_board, occupied, scan_lo, scan_hi, ENP_SQRS_MASK, CAS_WK_EMPTY_MASK, CAS_WQ_EMPTY_MASK,
    CAS_BK_EMPTY_MASK, CAS_BQ_EMPTY_MASK};
use crate::state::StateModel;
use crate::util::{mov_to, mov_tp, lemma_decode_encode};

verus! {

/// A move that takes a piece, takes en passant or promotes.
pub open spec fn is_tactical(m: StateModel, mov: u32) -> bool {
    m.squares[mov_to(mov) as int] != 0 || mov_tp(mov) == def::MOV_ENP || mov_tp(mov) == def::MOV_PROMO
}

pub open spec fn tactical(m: StateModel) -> spec_fn(u32) -> bool {
    |mov: u32| is_tactical(m, mov)
}

/// The squares hold piece codes and the boards agree with them.
pub open spec fn board_ok(m: StateModel) -> bool {
    &&& m.squares.len() == 64
    &&& forall|i: int| 0 <= i < 64 ==> #[trigger] def::is_square_code(m.squares[i])
    &&& matches_squares(m.bitboard, m.squares)
    &&& def::is_player(m.player)
    &&& m.enp_square < 64
}

proof fn lemma_filter_empty(p: spec_fn(u32) -> bool)
    ensures
        Seq::<u32>::empty().filter(p) == Seq::<u32>::empty(),
{
    reveal(Seq::filter);
}

proof fn lemma_filter_keeps_all(s: Seq<u32>, p: spec_fn(u32) -> bool)
    requires
        forall|i: int| 0 <= i < s.len() ==> #[trigger] p(s[i]),
    ensures
        s.filter(p) == s,
    decreases s.len(),
{
    reveal(Seq::filter);
    if s.len() > 0 {
        lemma_filter_keeps_all(s.drop_last(), p);
        assert(s.drop_last().push(s.last()) =~= s);
    }
}

proof fn lemma_filter_drops_all(s: Seq<u32>, p: spec_fn(u32) -> bool)
    requires
        forall|i: int| 0 <= i < s.len() ==> !#[trigger] p(s[i]),
    ensures
        s.filter(p) == Seq::<u32>::empty(),
    decreases s.len(),
{
    reveal(Seq::filter);
    if s.len() > 0 {
        lemma_filter_drops_all(s.drop_last(), p);
    }
}

pub proof fn lemma_enc(from: int, to: int, tp: u8, promo: u8)
    requires
        0 <= from < 64,
        0 <= to < 64,
    ensures
        crate::util::mov_from(enc(from, to, tp, promo)) == from,
        mov_to(enc(from, to, tp, promo)) == to,
        mov_tp(enc(from, to, tp, promo)) == tp,
        crate::util::mov_promo(enc(from, to, tp, promo)) == promo,
{
    lemma_decode_encode(from as usize, to as usize, tp, promo);
}

/// An occupied square holds a piece, and a square outside the side's board holds a piece
/// exactly when it is on the opponent's board.
proof fn lemma_square_bits(m: StateModel, t: int)
    requires
        board_ok(m),
        0 <= t < 64,
    ensures
        has_bit(occupied(m.bitboard), t) == (m.squares[t] != 0),
        has_bit(side_board(m.bitboard, def::opposite(m.player)), t)
            == (m.squares[t] != 0 && !has_bit(side_board(m.bitboard, m.player), t)),
{
    lemma_or_bit(m.bitboard.w_all, m.bitboard.b_all, t);
    assert(def::is_square_code(m.squares[t]));
    assert(has_bit(m.bitboard.w_all, t) == (m.squares[t] != 0 && def::side_of(m.squares[t]) == def::PLAYER_W));
    assert(has_bit(m.bitboard.b_all, t) == (m.squares[t] != 0 && def::side_of(m.squares[t]) == def::PLAYER_B));
}

/// Keeping the tactical moves of the moves onto `all` leaves the moves onto `keep`, when
/// `keep` holds just the occupied squares of `all`.
proof fn lemma_target_movs_filter(m: StateModel, from: int, keep: u64, all: u64, n: int)
    requires
        0 <= from < 64,
        0 <= n <= 64,
        m.squares.len() == 64,
        forall|t: int| 0 <= t < 64 ==> (#[trigger] has_bit(keep, t) <==> (has_bit(all, t) && m.squares[t] != 0)),
    ensures
        target_movs(from, all, n).filter(tactical(m)) == target_movs(from, keep, n),
    decreases n,
{
    reveal(Seq::filter);
    if n > 0 {
        lemma_target_movs_filter(m, from, keep, all, n - 1);
        let x = enc(from, n - 1, def::MOV_REG, 0);
        lemma_enc(from, n - 1, def::MOV_REG, 0);
        let a = target_movs(from, all, n - 1);
        let tail = if has_bit(all, n - 1) { seq![x] } else { Seq::<u32>::empty() };
        Seq::filter_distributes_over_add(a, tail, tactical(m));
        if has_bit(all, n - 1) {
            if m.squares[n - 1] != 0 {
                lemma_filter_keeps_all(tail, tactical(m));
            } else {
                lemma_filter_drops_all(tail, tactical(m));
                assert(a.filter(tactical(m)) + Seq::<u32>::empty() =~= a.filter(tactical(m)));
            }
        } else {
            lemma_filter_empty(tactical(m));
            assert(a.filter(tactical(m)) + Seq::<u32>::empty() =~= a.filter(tactical(m)));
        }
        assert(target_movs(from, keep, n) =~= target_movs(from, keep, n - 1)
            + if has_bit(keep, n - 1) { seq![x] } else { Seq::<u32>::empty() });
    }
}

/// Every move of a pawn onto targets that are occupied unless they are the en-passant
/// square is tactical.
proof fn lemma_pawn_targets_tactical(m: StateModel, player: u8, from: int, targets: u64, enp: int, n: int)
    requires
        0 <= from < 64,
        0 <= n <= 64,
        m.squares.len() == 64,
        forall|t: int| 0 <= t < 64 && #[trigger] has_bit(targets, t) && t != enp ==> m.squares[t] != 0,
    ensures
        forall|i: int| 0 <= i < pawn_target_movs(player, from, targets, enp, n).len()
            ==> #[trigger] is_tactical(m, pawn_target_movs(player, from, targets, enp, n)[i]),
    decreases n,
{
    if n > 0 {
        lemma_pawn_targets_tactical(m, player, from, targets, enp, n - 1);
        let a = pawn_target_movs(player, from, targets, enp, n - 1);
        let t = n - 1;
        let b = if has_bit(targets, t) { pawn_target_mov(player, from, t, enp) } else { Seq::<u32>::empty() };
        let s = pawn_target_movs(player, from, targets, enp, n);
        assert(s == a + b);
        lemma_enc(from, t, def::MOV_REG, 0);
        lemma_enc(from, t, def::MOV_ENP, 0);
        if player == def::PLAYER_W {
            lemma_enc(from, t, def::MOV_PROMO, def::WQ);
            lemma_enc(from, t, def::MOV_PROMO, def::WR);
            lemma_enc(from, t, def::MOV_PROMO, def::WB);
            lemma_enc(from, t, def::MOV_PROMO, def::WN);
        } else {
            lemma_enc(from, t, def::MOV_PROMO, def::BQ);
            lemma_enc(from, t, def::MOV_PROMO, def::BR);
            lemma_enc(from, t, def::MOV_PROMO, def::BB);
            lemma_enc(from, t, def::MOV_PROMO, def::BN);
        }
        assert forall|i: int| 0 <= i < s.len() implies #[trigger] is_tactical(m, s[i]) by {
            if i >= a.len() {
                assert(s[i] == b[i - a.len()]);
            } else {
                assert(s[i] == a[i]);
            }
        }
    }
}

/// The capture targets of a pawn are occupied unless they are the en-passant square.
proof fn lemma_pawn_cap_targets(m: StateModel, bm: BitMask, from: int)
    requires
        board_ok(m),
        index_masks_ok(bm.index_masks),
        0 <= from < 64,
    ensures
        forall|t: int| 0 <= t < 64 && #[trigger] has_bit(pawn_cap_targets(m, bm, from), t) && t != m.enp_square
            ==> m.squares[t] != 0,
{
    let bb = m.bitboard;
    assert forall|t: int| 0 <= t < 64 && #[trigger] has_bit(pawn_cap_targets(m, bm, from), t) && t != m.enp_square
        implies m.squares[t] != 0 by {
        let e = m.enp_square as int;
        lemma_single_bit(e, t);
        assert(bm.index_masks[e] == single(e));
        if m.player == def::PLAYER_W {
            lemma_and_bit(bm.wp_attack_masks[from], bb.b_all | bm.index_masks[e], t);
            lemma_or_bit(bb.b_all, bm.index_masks[e], t);
            assert(has_bit(bb.b_all, t));
        } else {
            lemma_and_bit(bm.bp_attack_masks[from], bb.w_all | (bm.index_masks[e] & ENP_SQRS_MASK), t);
            lemma_or_bit(bb.w_all, bm.index_masks[e] & ENP_SQRS_MASK, t);
            lemma_and_bit(bm.index_masks[e], ENP_SQRS_MASK, t);
            assert(has_bit(bb.w_all, t));
        }
        assert(def::is_square_code(m.squares[t]));
    }
}

/// A mask with a nonzero part in `y` that holds at most the square `k` has `k` in `y`.
pub proof fn lemma_step_mask(mask: u64, y: u64, k: int)
    requires
        mask & y != 0,
        forall|j: int| 0 <= j < 64 ==> (#[trigger] has_bit(mask, j) ==> j == k),
    ensures
        has_bit(y, k),
        has_bit(mask, k),
{
    lemma_zero_iff_no_bits(mask & y);
    let j = choose|j: int| 0 <= j < 64 && has_bit(mask & y, j);
    lemma_and_bit(mask, y, j);
}

/// Keeping the tactical moves of a pawn's forward moves leaves its promotions.
proof fn lemma_pawn_push_filter(m: StateModel, bm: BitMask, from: int)
    requires
        board_ok(m),
        bm.wf(),
        0 <= from < 64,
    ensures
        pawn_push_movs(m, bm, from).filter(tactical(m)) == pawn_promo_push_movs(m, bm, from),
{
    reveal(Seq::filter);
    let empty = !occupied(m.bitboard);
    let s = pawn_push_movs(m, bm, from);
    if m.player == def::PLAYER_W {
        if bm.wp_mov_masks[from] & empty != 0 {
            assert forall|j: int| 0 <= j < 64 && #[trigger] has_bit(bm.wp_mov_masks[from], j) implies j == from + 8 by {
                assert(has_bit(bm.wp_mov_masks[from], j) <==> wp_mov_rel(from, j));
            }
            lemma_step_mask(bm.wp_mov_masks[from], empty, from + 8);
            assert(wp_mov_rel(from, from + 8));
            let to = from + 8;
            if to > 55 {
                lemma_enc(from, to, def::MOV_PROMO, def::WQ);
                lemma_enc(from, to, def::MOV_PROMO, def::WR);
                lemma_enc(from, to, def::MOV_PROMO, def::WB);
                lemma_enc(from, to, def::MOV_PROMO, def::WN);
                lemma_filter_keeps_all(s, tactical(m));
            } else {
                lemma_not_bit(occupied(m.bitboard), to);
                lemma_square_bits(m, to);
                lemma_enc(from, to, def::MOV_REG, 0);
                if bm.wp_init_mov_masks[from] & empty != 0 {
                    assert forall|j: int| 0 <= j < 64 && #[trigger] has_bit(bm.wp_init_mov_masks[from], j) implies j == from + 16 by {
                        assert(has_bit(bm.wp_init_mov_masks[from], j) <==> wp_init_mov_rel(from, j));
                    }
                    lemma_step_mask(bm.wp_init_mov_masks[from], empty, from + 16);
                    assert(wp_init_mov_rel(from, from + 16));
                    lemma_not_bit(occupied(m.bitboard), to + 8);
                    lemma_square_bits(m, to + 8);
                    lemma_enc(from, to + 8, def::MOV_CR_ENP, 0);
                }
                lemma_filter_drops_all(s, tactical(m));
            }
        } else {
            lemma_filter_empty(tactical(m));
        }
    } else {
        if bm.bp_mov_masks[from] & empty != 0 {
            assert forall|j: int| 0 <= j < 64 && #[trigger] has_bit(bm.bp_mov_masks[from], j) implies j == from - 8 by {
                assert(has_bit(bm.bp_mov_masks[from], j) <==> bp_mov_rel(from, j));
            }
            lemma_step_mask(bm.bp_mov_masks[from], empty, from - 8);
            assert(bp_mov_rel(from, from - 8));
            let to = from - 8;
            if to < 8 {
                lemma_enc(from, to, def::MOV_PROMO, def::BQ);
                lemma_enc(from, to, def::MOV_PROMO, def::BR);
                lemma_enc(from, to, def::MOV_PROMO, def::BB);
                lemma_enc(from, to, def::MOV_PROMO, def::BN);
                lemma_filter_keeps_all(s, tactical(m));
            } else {
                lemma_not_bit(occupied(m.bitboard), to);
                lemma_square_bits(m, to);
                lemma_enc(from, to, def::MOV_REG, 0);
                if bm.bp_init_mov_masks[from] & empty != 0 {
                    assert forall|j: int| 0 <= j < 64 && #[trigger] has_bit(bm.bp_init_mov_masks[from], j) implies j == from - 16 by {
                        assert(has_bit(bm.bp_init_mov_masks[from], j) <==> bp_init_mov_rel(from, j));
                    }
                    lemma_step_mask(bm.bp_init_mov_masks[from], empty, from - 16);
                    assert(bp_init_mov_rel(from, from - 16));
                    lemma_not_bit(occupied(m.bitboard), to - 8);
                    lemma_square_bits(m, to - 8);
                    lemma_enc(from, to - 8, def::MOV_CR_ENP, 0);
                }
                lemma_filter_drops_all(s, tactical(m));
            }
        } else {
            lemma_filter_empty(tactical(m));
        }
    }
}

/// Keeping the tactical moves of a piece's moves leaves its captures and promotions.
proof fn lemma_piece_filter(m: StateModel, bm: BitMask, from: int)
    requires
        board_ok(m),
        bm.wf(),
        index_masks_ok(bm.index_masks),
        0 <= from < 64,
    ensures
        piece_reg_movs(m, bm, from).filter(tactical(m)) == piece_cap_movs(m, bm, from),
{
    let p = m.squares[from];
    let bb = m.bitboard;
    let own = side_board(bb, m.player);
    let opp = side_board(bb, def::opposite(m.player));
    if !(p != 0 && def::side_of(p) == m.player) {
        lemma_filter_empty(tactical(m));
    } else if def::kind_of(p) == def::KIND_P {
        let caps = pawn_target_movs(m.player, from, pawn_cap_targets(m, bm, from), m.enp_square as int, 64);
        Seq::filter_distributes_over_add(pawn_push_movs(m, bm, from), caps, tactical(m));
        lemma_pawn_push_filter(m, bm, from);
        lemma_pawn_cap_targets(m, bm, from);
        lemma_pawn_targets_tactical(m, m.player, from, pawn_cap_targets(m, bm, from), m.enp_square as int, 64);
        lemma_filter_keeps_all(caps, tactical(m));
    } else {
        let t_all = piece_reg_targets(m, bm, from);
        assert forall|t: int| 0 <= t < 64 implies
            (#[trigger] has_bit(t_all & opp, t) <==> (has_bit(t_all & !own, t) && m.squares[t] != 0)) by {
            lemma_and_bit(t_all, opp, t);
            lemma_and_bit(t_all, !own, t);
            lemma_not_bit(own, t);
            lemma_square_bits(m, t);
        }
        lemma_target_movs_filter(m, from, t_all & opp, t_all & !own, 64);
    }
}

/// The squares a piece other than a pawn reaches, own pieces included.
pub open spec fn piece_reg_targets(m: StateModel, bm: BitMask, from: int) -> u64 {
    let p = m.squares[from];
    let occ = occupied(m.bitboard);
    if def::kind_of(p) == def::KIND_N { bm.n_attack_masks[from] }
    else if def::kind_of(p) == def::KIND_B { crate::mov_table::bishop_attacks(from, occ) }
    else if def::kind_of(p) == def::KIND_R { crate::mov_table::rook_attacks(from, occ) }
    else if def::kind_of(p) == def::KIND_Q { crate::mov_table::rook_attacks(from, occ) | crate::mov_table::bishop_attacks(from, occ) }
    else { bm.k_attack_masks[from] }
}

pub proof fn lemma_empty_square(all: u64, e: u64, t: int)
    requires
        all & e == 0,
        has_bit(e, t),
    ensures
        !has_bit(all, t),
{
    lemma_zero_iff_no_bits(all & e);
    lemma_and_bit(all, e, t);
}

/// No castling move is tactical.
proof fn lemma_castle_filter(m: StateModel, bm: BitMask)
    requires
        board_ok(m),
    ensures
        castle_movs(m, bm).filter(tactical(m)) == Seq::<u32>::empty(),
{
    let all = occupied(m.bitboard);
    assert((0b0110_0000u64 >> 6u64) & 1 == 1) by (bit_vector);
    assert((0b0000_1110u64 >> 2u64) & 1 == 1) by (bit_vector);
    assert((0x6000_0000_0000_0000u64 >> 62u64) & 1 == 1) by (bit_vector);
    assert((0x0e00_0000_0000_0000u64 >> 58u64) & 1 == 1) by (bit_vector);
    assert(has_bit(CAS_WK_EMPTY_MASK, 6));
    assert(has_bit(CAS_WQ_EMPTY_MASK, 2));
    assert(has_bit(CAS_BK_EMPTY_MASK, 62));
    assert(has_bit(CAS_BQ_EMPTY_MASK, 58));
    if all & CAS_WK_EMPTY_MASK == 0 { lemma_empty_square(all, CAS_WK_EMPTY_MASK, 6); lemma_square_bits(m, 6); }
    if all & CAS_WQ_EMPTY_MASK == 0 { lemma_empty_square(all, CAS_WQ_EMPTY_MASK, 2); lemma_square_bits(m, 2); }
    if all & CAS_BK_EMPTY_MASK == 0 { lemma_empty_square(all, CAS_BK_EMPTY_MASK, 62); lemma_square_bits(m, 62); }
    if all & CAS_BQ_EMPTY_MASK == 0 { lemma_empty_square(all, CAS_BQ_EMPTY_MASK, 58); lemma_square_bits(m, 58); }
    lemma_enc(4, 6, def::MOV_CAS, 0);
    lemma_enc(4, 2, def::MOV_CAS, 0);
    lemma_enc(60, 62, def::MOV_CAS, 0);
    lemma_enc(60, 58, def::MOV_CAS, 0);
    lemma_filter_drops_all(castle_movs(m, bm), tactical(m));
}

proof fn lemma_range_filter(m: StateModel, bm: BitMask, lo: int, hi: int)
    requires
        board_ok(m),
        bm.wf(),
        index_masks_ok(bm.index_masks),
        0 <= lo,
        hi <= 64,
    ensures
        reg_movs_range(m, bm, lo, hi).filter(tactical(m)) == cap_movs_range(m, bm, lo, hi),
    decreases hi - lo,
{
    if hi <= lo {
        lemma_filter_empty(tactical(m));
    } else {
        lemma_range_filter(m, bm, lo, hi - 1);
        Seq::filter_distributes_over_add(reg_movs_range(m, bm, lo, hi - 1), piece_reg_movs(m, bm, hi - 1), tactical(m));
        lemma_piece_filter(m, bm, hi - 1);
    }
}

/// The captures-and-promotions list is the full move list with the quiet moves left out:
/// the captures, en-passant captures and promotions (quiet promotions too) of the side to
/// move, in the same order, and neither castling nor any other quiet move.
pub proof fn lemma_cap_movs_are_tactical_reg_movs(m: StateModel, bm: BitMask)
    requires
        board_ok(m),
        bm.wf(),
        index_masks_ok(bm.index_masks),
    ensures
        cap_movs(m, bm) == reg_movs(m, bm).filter(tactical(m)),
{
    lemma_range_filter(m, bm, scan_lo(m), scan_hi(m));
    Seq::filter_distributes_over_add(reg_movs_range(m, bm, scan_lo(m), scan_hi(m)), castle_movs(m, bm), tactical(m));
    lemma_castle_filter(m, bm);
    assert(cap_movs(m, bm) + Seq::<u32>::empty() =~= cap_movs(m, bm));
}

} // verus!
