//! Every move that the generator lists for a sound position can be played, keeps the
//! key and the boards in step with the squares, and is taken back exactly.
use vstd::prelude::*;
use crate::bits::{has_bit, single, lemma_and_bit, lemma_or_bit, lemma_not_bit, lemma_single_bit, lemma_zero_iff_no_bits};
use crate::bitmask::{BitMask, index_masks_ok, wp_mov_rel, bp_mov_rel, wp_init_mov_rel, bp_init_mov_rel,
    wp_attack_rel, bp_attack_rel};
use crate::def;
use crate::mov_gen::{enc, promos};
use crate::mov_table::{target_movs, pawn_target_mov, pawn_target_movs, pawn_push_movs, pawn_cap_targets,
    piece_reg_movs, reg_movs_range, castle_movs, reg_movs, side_board, occupied, scan_lo, scan_hi,
    ENP_SQRS_MASK, CAS_WK_EMPTY_MASK, CAS_WQ_EMPTY_MASK, CAS_BK_EMPTY_MASK, CAS_BQ_EMPTY_MASK,
    CAS_WK_R_MASK, CAS_WQ_R_MASK, CAS_BK_R_MASK, CAS_BQ_R_MASK};
use crate::state::{StateModel, can_do_mov, can_restore, keeps_board, enp_taken_index, board_consistent,
    do_mov_model, undo_mov_model, lemma_do_mov_keeps_board, lemma_undo_mov_restores};
use crate::tactical::{board_ok, lemma_enc, lemma_step_mask, lemma_empty_square};
use crate::util::{mov_from, mov_to, mov_tp, mov_promo, lemma_decode_encode};

verus! {

/// The encoded move can be played (`can_do_mov`), keeps the key and the boards in step
/// (`keeps_board`) and is taken back exactly (`can_restore`).
pub open spec fn mov_playable(m: StateModel, mov: u32) -> bool {
    let f = mov_from(mov) as int;
    let t = mov_to(mov) as int;
    &&& can_do_mov(m, f, t, mov_tp(mov), mov_promo(mov))
    &&& can_restore(m, f, t, mov_tp(mov))
    &&& keeps_board(m, f, t, mov_tp(mov), mov_promo(mov))
}

/// A sound position: piece codes on the squares in step with the boards, a side to move,
/// room in the reversible-move counter, a king on its square while its side may castle,
/// and an en-passant square that is empty with the pawn that passed it beside it.
pub open spec fn position_sound(m: StateModel) -> bool {
    &&& board_ok(m)
    &&& m.non_cap_mov_count < u16::MAX
    &&& m.cas_rights & 0b1100 != 0 ==> m.squares[4] == def::WK
    &&& m.cas_rights & 0b0011 != 0 ==> m.squares[60] == def::BK
    &&& m.enp_square != 0 ==> {
        let ti = enp_taken_index(m.player, m.enp_square as int);
        &&& 0 <= ti < 64
        &&& m.squares[m.enp_square as int] == 0
        &&& def::is_piece(m.squares[ti])
    }
}

pub open spec fn all_playable(m: StateModel, s: Seq<u32>) -> bool {
    forall|i: int| 0 <= i < s.len() ==> #[trigger] mov_playable(m, s[i])
}

proof fn lemma_all_add(m: StateModel, a: Seq<u32>, b: Seq<u32>)
    requires
        all_playable(m, a),
        all_playable(m, b),
    ensures
        all_playable(m, a + b),
{
    assert forall|i: int| 0 <= i < (a + b).len() implies #[trigger] mov_playable(m, (a + b)[i]) by {
        if i < a.len() {
            assert((a + b)[i] == a[i]);
        } else {
            assert((a + b)[i] == b[i - a.len()]);
        }
    }
}

/// The regular moves of a piece other than a pawn onto targets without its own square.
proof fn lemma_target_movs_playable(m: StateModel, from: int, targets: u64, n: int)
    requires
        position_sound(m),
        0 <= from < 64,
        0 <= n <= 64,
        def::is_piece(m.squares[from]),
        def::kind_of(m.squares[from]) != def::KIND_P,
        !has_bit(targets, from),
    ensures
        all_playable(m, target_movs(from, targets, n)),
    decreases n,
{
    if n > 0 {
        lemma_target_movs_playable(m, from, targets, n - 1);
        let b = if has_bit(targets, n - 1) { seq![enc(from, n - 1, def::MOV_REG, 0)] } else { Seq::<u32>::empty() };
        lemma_enc(from, n - 1, def::MOV_REG, 0);
        assert(all_playable(m, b));
        lemma_all_add(m, target_movs(from, targets, n - 1), b);
    }
}

/// The four promotions of a pawn of the side to move from `from` onto `to`.
proof fn lemma_promos_playable(m: StateModel, from: int, to: int)
    requires
        position_sound(m),
        0 <= from < 64,
        0 <= to < 64,
        from != to,
        m.squares[from] == (if m.player == def::PLAYER_W { def::WP } else { def::BP }),
    ensures
        all_playable(m, promos(m.player, from, to)),
{
    if m.player == def::PLAYER_W {
        lemma_enc(from, to, def::MOV_PROMO, def::WQ);
        lemma_enc(from, to, def::MOV_PROMO, def::WR);
        lemma_enc(from, to, def::MOV_PROMO, def::WB);
        lemma_enc(from, to, def::MOV_PROMO, def::WN);
    } else {
        lemma_enc(from, to, def::MOV_PROMO, def::BQ);
        lemma_enc(from, to, def::MOV_PROMO, def::BR);
        lemma_enc(from, to, def::MOV_PROMO, def::BB);
        lemma_enc(from, to, def::MOV_PROMO, def::BN);
    }
}

proof fn lemma_empty_bit(m: StateModel, t: int)
    requires
        board_ok(m),
        0 <= t < 64,
        has_bit(!occupied(m.bitboard), t),
    ensures
        m.squares[t] == 0,
{
    lemma_not_bit(occupied(m.bitboard), t);
    lemma_or_bit(m.bitboard.w_all, m.bitboard.b_all, t);
    assert(def::is_square_code(m.squares[t]));
}

/// A pawn's forward moves.
proof fn lemma_pawn_push_playable(m: StateModel, bm: BitMask, from: int)
    requires
        position_sound(m),
        bm.wf(),
        0 <= from < 64,
        m.squares[from] == (if m.player == def::PLAYER_W { def::WP } else { def::BP }),
    ensures
        all_playable(m, pawn_push_movs(m, bm, from)),
{
    let empty = !occupied(m.bitboard);
    if m.player == def::PLAYER_W {
        if bm.wp_mov_masks[from] & empty != 0 {
            assert forall|j: int| 0 <= j < 64 && #[trigger] has_bit(bm.wp_mov_masks[from], j) implies j == from + 8 by {
                assert(has_bit(bm.wp_mov_masks[from], j) <==> wp_mov_rel(from, j));
            }
            lemma_step_mask(bm.wp_mov_masks[from], empty, from + 8);
            assert(wp_mov_rel(from, from + 8));
            let to = from + 8;
            lemma_empty_bit(m, to);
            if to > 55 {
                lemma_promos_playable(m, from, to);
            } else {
                lemma_enc(from, to, def::MOV_REG, 0);
                if bm.wp_init_mov_masks[from] & empty != 0 {
                    assert forall|j: int| 0 <= j < 64 && #[trigger] has_bit(bm.wp_init_mov_masks[from], j) implies j == from + 16 by {
                        assert(has_bit(bm.wp_init_mov_masks[from], j) <==> wp_init_mov_rel(from, j));
                    }
                    lemma_step_mask(bm.wp_init_mov_masks[from], empty, from + 16);
                    assert(wp_init_mov_rel(from, from + 16));
                    lemma_empty_bit(m, to + 8);
                    lemma_enc(from, to + 8, def::MOV_CR_ENP, 0);
                }
            }
        }
    } else {
        if bm.bp_mov_masks[from] & empty != 0 {
            assert forall|j: int| 0 <= j < 64 && #[trigger] has_bit(bm.bp_mov_masks[from], j) implies j == from - 8 by {
                assert(has_bit(bm.bp_mov_masks[from], j) <==> bp_mov_rel(from, j));
            }
            lemma_step_mask(bm.bp_mov_masks[from], empty, from - 8);
            assert(bp_mov_rel(from, from - 8));
            let to = from - 8;
            lemma_empty_bit(m, to);
            if to < 8 {
                lemma_promos_playable(m, from, to);
            } else {
                lemma_enc(from, to, def::MOV_REG, 0);
                if bm.bp_init_mov_masks[from] & empty != 0 {
                    assert forall|j: int| 0 <= j < 64 && #[trigger] has_bit(bm.bp_init_mov_masks[from], j) implies j == from - 16 by {
                        assert(has_bit(bm.bp_init_mov_masks[from], j) <==> bp_init_mov_rel(from, j));
                    }
                    lemma_step_mask(bm.bp_init_mov_masks[from], empty, from - 16);
                    assert(bp_init_mov_rel(from, from - 16));
                    lemma_empty_bit(m, to - 8);
                    lemma_enc(from, to - 8, def::MOV_CR_ENP, 0);
                }
            }
        }
    }
}

/// A pawn's captures: onto enemy pieces, onto the en-passant square, and promotions.
proof fn lemma_pawn_targets_playable(m: StateModel, bm: BitMask, from: int, n: int)
    requires
        position_sound(m),
        bm.wf(),
        index_masks_ok(bm.index_masks),
        0 <= from < 64,
        0 <= n <= 64,
        m.squares[from] == (if m.player == def::PLAYER_W { def::WP } else { def::BP }),
    ensures
        all_playable(m, pawn_target_movs(m.player, from, pawn_cap_targets(m, bm, from), m.enp_square as int, n)),
    decreases n,
{
    if n > 0 {
        let targets = pawn_cap_targets(m, bm, from);
        let e = m.enp_square as int;
        lemma_pawn_targets_playable(m, bm, from, n - 1);
        let t = n - 1;
        let b = if has_bit(targets, t) { pawn_target_mov(m.player, from, t, e) } else { Seq::<u32>::empty() };
        if has_bit(targets, t) {
            let bb = m.bitboard;
            lemma_single_bit(e, t);
            assert(bm.index_masks[e] == single(e));
            if m.player == def::PLAYER_W {
                lemma_and_bit(bm.wp_attack_masks[from], bb.b_all | bm.index_masks[e], t);
                lemma_or_bit(bb.b_all, bm.index_masks[e], t);
                assert(has_bit(bm.wp_attack_masks[from], t) <==> wp_attack_rel(from, t));
            } else {
                lemma_and_bit(bm.bp_attack_masks[from], bb.w_all | (bm.index_masks[e] & ENP_SQRS_MASK), t);
                lemma_or_bit(bb.w_all, bm.index_masks[e] & ENP_SQRS_MASK, t);
                lemma_and_bit(bm.index_masks[e], ENP_SQRS_MASK, t);
                assert(has_bit(bm.bp_attack_masks[from], t) <==> bp_attack_rel(from, t));
            }
            assert(from != t);
            assert(def::is_square_code(m.squares[t]));
            if (m.player == def::PLAYER_W && t > 55) || (m.player != def::PLAYER_W && t < 8) {
                lemma_promos_playable(m, from, t);
            } else if t == e {
                lemma_enc(from, t, def::MOV_ENP, 0);
                assert(m.enp_square != 0);
            } else {
                lemma_enc(from, t, def::MOV_REG, 0);
            }
        }
        assert(all_playable(m, b));
        lemma_all_add(m, pawn_target_movs(m.player, from, targets, e, n - 1), b);
    }
}

proof fn lemma_full_square(x: u64, mask: u64, t: int)
    requires
        x & mask == mask,
        has_bit(mask, t),
    ensures
        has_bit(x, t),
{
    lemma_and_bit(x, mask, t);
}

/// The castling moves.
proof fn lemma_castle_playable(m: StateModel, bm: BitMask)
    requires
        position_sound(m),
    ensures
        all_playable(m, castle_movs(m, bm)),
{
    let bb = m.bitboard;
    let all = occupied(bb);
    assert((0b0110_0000u64 >> 5u64) & 1 == 1 && (0b0110_0000u64 >> 6u64) & 1 == 1) by (bit_vector);
    assert((0b0000_1110u64 >> 2u64) & 1 == 1 && (0b0000_1110u64 >> 3u64) & 1 == 1) by (bit_vector);
    assert((0x6000_0000_0000_0000u64 >> 61u64) & 1 == 1 && (0x6000_0000_0000_0000u64 >> 62u64) & 1 == 1) by (bit_vector);
    assert((0x0e00_0000_0000_0000u64 >> 58u64) & 1 == 1 && (0x0e00_0000_0000_0000u64 >> 59u64) & 1 == 1) by (bit_vector);
    assert((0b1000_0000u64 >> 7u64) & 1 == 1 && (0b0000_0001u64 >> 0u64) & 1 == 1) by (bit_vector);
    assert((0x8000_0000_0000_0000u64 >> 63u64) & 1 == 1 && (0x0100_0000_0000_0000u64 >> 56u64) & 1 == 1) by (bit_vector);
    assert(CAS_BQ_R_MASK == 0x0100_0000_0000_0000u64);
    let cr = m.cas_rights;
    assert((cr & 0b1000 != 0 ==> cr & 0b1100 != 0) && (cr & 0b0100 != 0 ==> cr & 0b1100 != 0)
        && (cr & 0b0010 != 0 ==> cr & 0b0011 != 0) && (cr & 0b0001 != 0 ==> cr & 0b0011 != 0)) by (bit_vector);
    lemma_enc(4, 6, def::MOV_CAS, 0);
    lemma_enc(4, 2, def::MOV_CAS, 0);
    lemma_enc(60, 62, def::MOV_CAS, 0);
    lemma_enc(60, 58, def::MOV_CAS, 0);
    let s = castle_movs(m, bm);
    assert forall|i: int| 0 <= i < s.len() implies #[trigger] mov_playable(m, s[i]) by {
        if all & CAS_WK_EMPTY_MASK == 0 {
            lemma_empty_square(all, CAS_WK_EMPTY_MASK, 5); lemma_empty_square(all, CAS_WK_EMPTY_MASK, 6);
            lemma_or_bit(bb.w_all, bb.b_all, 5); lemma_or_bit(bb.w_all, bb.b_all, 6);
        }
        if all & CAS_WQ_EMPTY_MASK == 0 {
            lemma_empty_square(all, CAS_WQ_EMPTY_MASK, 2); lemma_empty_square(all, CAS_WQ_EMPTY_MASK, 3);
            lemma_or_bit(bb.w_all, bb.b_all, 2); lemma_or_bit(bb.w_all, bb.b_all, 3);
        }
        if all & CAS_BK_EMPTY_MASK == 0 {
            lemma_empty_square(all, CAS_BK_EMPTY_MASK, 61); lemma_empty_square(all, CAS_BK_EMPTY_MASK, 62);
            lemma_or_bit(bb.w_all, bb.b_all, 61); lemma_or_bit(bb.w_all, bb.b_all, 62);
        }
        if all & CAS_BQ_EMPTY_MASK == 0 {
            lemma_empty_square(all, CAS_BQ_EMPTY_MASK, 58); lemma_empty_square(all, CAS_BQ_EMPTY_MASK, 59);
            lemma_or_bit(bb.w_all, bb.b_all, 58); lemma_or_bit(bb.w_all, bb.b_all, 59);
        }
        if bb.w_rook & CAS_WK_R_MASK == CAS_WK_R_MASK { lemma_full_square(bb.w_rook, CAS_WK_R_MASK, 7); }
        if bb.w_rook & CAS_WQ_R_MASK == CAS_WQ_R_MASK { lemma_full_square(bb.w_rook, CAS_WQ_R_MASK, 0); }
        if bb.b_rook & CAS_BK_R_MASK == CAS_BK_R_MASK { lemma_full_square(bb.b_rook, CAS_BK_R_MASK, 63); }
        if bb.b_rook & CAS_BQ_R_MASK == CAS_BQ_R_MASK { lemma_full_square(bb.b_rook, CAS_BQ_R_MASK, 56); }
        assert(crate::bitboard::has_kind_board(def::WR) && crate::bitboard::has_kind_board(def::BR));
        assert(has_bit(crate::bitboard::kind_board(bb, def::WR), 7) <==> m.squares[7] == def::WR);
        assert(has_bit(crate::bitboard::kind_board(bb, def::WR), 0) <==> m.squares[0] == def::WR);
        assert(has_bit(crate::bitboard::kind_board(bb, def::BR), 63) <==> m.squares[63] == def::BR);
        assert(has_bit(crate::bitboard::kind_board(bb, def::BR), 56) <==> m.squares[56] == def::BR);
        assert(def::is_square_code(m.squares[2]) && def::is_square_code(m.squares[3]) && def::is_square_code(m.squares[5])
            && def::is_square_code(m.squares[6]) && def::is_square_code(m.squares[58]) && def::is_square_code(m.squares[59])
            && def::is_square_code(m.squares[61]) && def::is_square_code(m.squares[62]));
    }
}

/// The moves of the piece on `from`.
proof fn lemma_piece_playable(m: StateModel, bm: BitMask, from: int)
    requires
        position_sound(m),
        bm.wf(),
        index_masks_ok(bm.index_masks),
        0 <= from < 64,
    ensures
        all_playable(m, piece_reg_movs(m, bm, from)),
{
    let p = m.squares[from];
    let bb = m.bitboard;
    let own = side_board(bb, m.player);
    if p != 0 && def::side_of(p) == m.player {
        assert(def::is_square_code(p));
        assert(has_bit(own, from)) by {
            assert(has_bit(bb.w_all, from) == (p != 0 && def::side_of(p) == def::PLAYER_W));
            assert(has_bit(bb.b_all, from) == (p != 0 && def::side_of(p) == def::PLAYER_B));
        }
        if def::kind_of(p) == def::KIND_P {
            lemma_pawn_push_playable(m, bm, from);
            lemma_pawn_targets_playable(m, bm, from, 64);
            lemma_all_add(m, pawn_push_movs(m, bm, from),
                pawn_target_movs(m.player, from, pawn_cap_targets(m, bm, from), m.enp_square as int, 64));
        } else {
            let t = crate::tactical::piece_reg_targets(m, bm, from);
            lemma_and_bit(t, !own, from);
            lemma_not_bit(own, from);
            lemma_target_movs_playable(m, from, t & !own, 64);
        }
    }
}

proof fn lemma_range_playable(m: StateModel, bm: BitMask, lo: int, hi: int)
    requires
        position_sound(m),
        bm.wf(),
        index_masks_ok(bm.index_masks),
        0 <= lo,
        hi <= 64,
    ensures
        all_playable(m, reg_movs_range(m, bm, lo, hi)),
    decreases hi - lo,
{
    if hi > lo {
        lemma_range_playable(m, bm, lo, hi - 1);
        lemma_piece_playable(m, bm, hi - 1);
        lemma_all_add(m, reg_movs_range(m, bm, lo, hi - 1), piece_reg_movs(m, bm, hi - 1));
    }
}

/// Every move that the generator lists for a sound position can be played, keeps the
/// Zobrist key and the bitboards in step with the squares, and is taken back exactly
/// (with `lemma_do_mov_keeps_board` and `lemma_undo_mov_restores`).
pub proof fn lemma_generated_movs_playable(m: StateModel, bm: BitMask)
    requires
        position_sound(m),
        bm.wf(),
        index_masks_ok(bm.index_masks),
    ensures
        forall|i: int| 0 <= i < reg_movs(m, bm).len() ==> #[trigger] mov_playable(m, reg_movs(m, bm)[i]),
{
    lemma_range_playable(m, bm, scan_lo(m), scan_hi(m));
    lemma_castle_playable(m, bm);
    lemma_all_add(m, reg_movs_range(m, bm, scan_lo(m), scan_hi(m)), castle_movs(m, bm));
}

/// Playing a generated move of a sound position keeps the Zobrist key equal to the key of
/// the squares and the bitboards equal to the boards of the squares, and taking it back
/// restores the position, stacks included.
pub proof fn lemma_generated_mov_round_trip(m: StateModel, keys: Seq<Vec<u64>>, bm: BitMask, i: int)
    requires
        position_sound(m),
        board_consistent(m, keys),
        bm.wf(),
        index_masks_ok(bm.index_masks),
        0 <= i < reg_movs(m, bm).len(),
    ensures
        ({
            let mov = reg_movs(m, bm)[i];
            let (f, t, tp, pr) = (mov_from(mov) as int, mov_to(mov) as int, mov_tp(mov), mov_promo(mov));
            &&& board_consistent(do_mov_model(m, keys, f, t, tp, pr), keys)
            &&& undo_mov_model(do_mov_model(m, keys, f, t, tp, pr), f, t, tp) == m
        }),
{
    lemma_generated_movs_playable(m, bm);
    let mov = reg_movs(m, bm)[i];
    assert(mov_playable(m, mov));
    lemma_do_mov_keeps_board(m, keys, mov_from(mov) as int, mov_to(mov) as int, mov_tp(mov), mov_promo(mov));
    lemma_undo_mov_restores(m, keys, mov_from(mov) as int, mov_to(mov) as int, mov_tp(mov), mov_promo(mov));
}

} // verus!
