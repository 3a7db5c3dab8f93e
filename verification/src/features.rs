//! The positional features that the evaluation weighs: pawn structure, open files,
//! attacks, mobility, pins and square values, counted for each side.
use vstd::prelude::*;
use crate::def;
use crate::bitboard::BitBoard;
use crate::bitmask::BitMask;
use crate::eval::{piece_count, count_pieces, FeatureMap, Evaluator};
use crate::mov_table::{horizontal_lookup, vertical_lookup, diag_up_lookup, diag_down_lookup};
use crate::slide::line_board;
use crate::state::{State, StateModel};
use crate::mov_table::{self, can_probe, in_check, under_attack};

verus! {

/// The rank of a square counted from `player`'s side of the board (0 to 7).
pub open spec fn passer_rank(player: u8, index: int) -> int {
    if player == def::PLAYER_W { index / 8 } else { 7 - index / 8 }
}

pub fn get_passer_rank(player: u8, index: usize) -> (r: i32)
    requires
        index < 64,
    ensures
        r == passer_rank(player, index as int),
{
    if player == def::PLAYER_W { (index / 8) as i32 } else { 7 - (index / 8) as i32 }
}

/// The squares that a piece on `index` attacks on the board `occ`: pawns diagonally
/// forward, knights, and bishops, rooks and queens up to the first piece in each line;
/// nothing for kings and empty squares.
pub open spec fn piece_attacks(bm: BitMask, occ: u64, index: int, piece: u8) -> u64 {
    if piece == def::WP { bm.wp_attack_masks[index] }
    else if piece == def::BP { bm.bp_attack_masks[index] }
    else if piece == def::WN || piece == def::BN { bm.n_attack_masks[index] }
    else if piece == def::WB || piece == def::BB {
        line_board(index, 1, 1, occ) | line_board(index, 1, -1, occ)
    } else if piece == def::WR || piece == def::BR {
        line_board(index, 0, 1, occ) | line_board(index, 1, 0, occ)
    } else if piece == def::WQ || piece == def::BQ {
        line_board(index, 0, 1, occ) | line_board(index, 1, 0, occ)
            | line_board(index, 1, 1, occ) | line_board(index, 1, -1, occ)
    } else { 0 }
}

/// The move mask of the piece on `index`: its attacks for a knight, bishop, rook or
/// queen, and nothing for pawns, kings and empty squares.
pub open spec fn mov_mask_of(bm: BitMask, occ: u64, index: int, piece: u8) -> u64 {
    if piece == def::WP || piece == def::BP { 0 } else { piece_attacks(bm, occ, index, piece) }
}

/// The squares attacked by the pieces `piece` among the first `n` squares.
pub open spec fn attacks_by(sq: Seq<u8>, bm: BitMask, occ: u64, piece: u8, n: int) -> u64
    decreases n,
{
    if n <= 0 {
        0
    } else if sq[n - 1] == piece {
        attacks_by(sq, bm, occ, piece, n - 1) | piece_attacks(bm, occ, n - 1, piece)
    } else {
        attacks_by(sq, bm, occ, piece, n - 1)
    }
}

/// The last of the first `n` squares that holds `piece`, or 0.
pub open spec fn last_index_of(sq: Seq<u8>, piece: u8, n: int) -> int
    decreases n,
{
    if n <= 0 { 0 } else if sq[n - 1] == piece { n - 1 } else { last_index_of(sq, piece, n - 1) }
}

/// The attacks of one piece, computed from the lookup tables.
pub fn get_piece_attacks(bm: &BitMask, occ: u64, index: usize, piece: u8) -> (r: u64)
    requires
        bm.wf(),
        index < 64,
    ensures
        r == piece_attacks(*bm, occ, index as int, piece),
{
    if piece == def::WP {
        bm.wp_attack_masks[index]
    } else if piece == def::BP {
        bm.bp_attack_masks[index]
    } else if piece == def::WN || piece == def::BN {
        bm.n_attack_masks[index]
    } else if piece == def::WB || piece == def::BB {
        diag_up_lookup(bm, index, occ) | diag_down_lookup(bm, index, occ)
    } else if piece == def::WR || piece == def::BR {
        horizontal_lookup(bm, index, occ) | vertical_lookup(bm, index, occ)
    } else if piece == def::WQ || piece == def::BQ {
        horizontal_lookup(bm, index, occ) | vertical_lookup(bm, index, occ)
            | diag_up_lookup(bm, index, occ) | diag_down_lookup(bm, index, occ)
    } else {
        0
    }
}

/// The pawn-structure and rook-file counts of one side.
#[derive(Clone, Copy)]
pub struct StructureCounts {
    pub isolated: i32,
    pub behind: i32,
    pub passer: i32,
    pub passer_rank: i32,
    pub controlled_passer: i32,
    pub candidate: i32,
    pub candidate_rank: i32,
    pub doubled: i32,
    pub rook_open: i32,
    pub rook_semi_open: i32,
}

pub open spec fn zero_structure() -> StructureCounts {
    StructureCounts { isolated: 0, behind: 0, passer: 0, passer_rank: 0, controlled_passer: 0,
        candidate: 0, candidate_rank: 0, doubled: 0, rook_open: 0, rook_semi_open: 0 }
}

/// Every count lies within `-k..=k`.
pub open spec fn structure_within(c: StructureCounts, k: int) -> bool {
    &&& -k <= c.isolated <= k && -k <= c.behind <= k && -k <= c.passer <= k
    &&& -k <= c.passer_rank <= k && -k <= c.controlled_passer <= k && -k <= c.candidate <= k
    &&& -k <= c.candidate_rank <= k && -k <= c.doubled <= k && -k <= c.rook_open <= k
    &&& -k <= c.rook_semi_open <= k
}

/// What a pawn of the side `white` on `i` adds to the counts: isolated (no own pawn on a
/// neighbouring file strictly behind or strictly ahead of it) or behind (none strictly
/// behind on a neighbouring file but some ahead), each counted twice when the opponent
/// has no pawn on its file; passed (no opposing pawn
/// ahead on its file or the neighbouring ones, no own pawn ahead on its file) with its
/// rank, controlled when no other pieces are left and its path is empty or covered by its
/// king; otherwise a candidate (its file ahead empty, one opposing pawn ahead, an own pawn
/// connected) with its rank; and doubled when its file has another own pawn.
pub open spec fn pawn_step(c: StructureCounts, bm: BitMask, bb: BitBoard, piece_mask: u64, king: int, white: bool, i: int) -> StructureCounts {
    let own = if white { bb.w_pawn } else { bb.b_pawn };
    let opp = if white { bb.b_pawn } else { bb.w_pawn };
    let file_mask = bm.file_masks[i];
    let own_fwd = if white { bm.wp_forward_masks[i] } else { bm.bp_forward_masks[i] };
    let back_fwd = if white { bm.bp_forward_masks[i] } else { bm.wp_forward_masks[i] };
    let rank = passer_rank(if white { def::PLAYER_W } else { def::PLAYER_B }, i);
    let open_file = file_mask & opp == 0;
    let c1 = if (back_fwd & !file_mask) & own == 0 {
        if (own_fwd & !file_mask) & own == 0 {
            StructureCounts { isolated: (c.isolated + if open_file { 2int } else { 1 }) as i32, ..c }
        } else {
            StructureCounts { behind: (c.behind + if open_file { 2int } else { 1 }) as i32, ..c }
        }
    } else { c };
    let c2 = if own_fwd & (opp | (own & file_mask)) == 0 {
        let control = if white { bm.wp_front_control_sqr_masks[i] } else { bm.bp_front_control_sqr_masks[i] };
        let controlled = piece_mask == 0 && (control == 0 || control & bm.index_masks[king] != 0);
        StructureCounts {
            passer: (c1.passer + 1) as i32,
            passer_rank: (c1.passer_rank + rank - 1) as i32,
            controlled_passer: (c1.controlled_passer + if controlled { 1int } else { 0 }) as i32,
            ..c1
        }
    } else if own_fwd & (own | opp) & file_mask == 0 && piece_count(own_fwd & opp) == 1
        && (if white { bm.wp_connected_sqr_masks[i] } else { bm.bp_connected_sqr_masks[i] }) & own != 0 {
        StructureCounts {
            candidate: (c1.candidate + 1) as i32,
            candidate_rank: (c1.candidate_rank + rank - 1) as i32,
            ..c1
        }
    } else { c1 };
    if piece_count(file_mask & own) > 1 {
        StructureCounts { doubled: (c2.doubled + 1) as i32, ..c2 }
    } else { c2 }
}

/// What a rook of the side `white` on `i` adds: an open file (no pawns) or a half-open one
/// (no own pawns).
pub open spec fn rook_step(c: StructureCounts, bm: BitMask, bb: BitBoard, white: bool, i: int) -> StructureCounts {
    let own = if white { bb.w_pawn } else { bb.b_pawn };
    let file_mask = bm.file_masks[i];
    if file_mask & (bb.w_pawn | bb.b_pawn) == 0 {
        StructureCounts { rook_open: (c.rook_open + 1) as i32, ..c }
    } else if file_mask & own == 0 {
        StructureCounts { rook_semi_open: (c.rook_semi_open + 1) as i32, ..c }
    } else { c }
}

/// The structure counts of the side `white` over the first `n` squares.
pub open spec fn structure_upto(sq: Seq<u8>, bm: BitMask, bb: BitBoard, piece_mask: u64, king: int, white: bool, n: int) -> StructureCounts
    decreases n,
{
    if n <= 0 {
        zero_structure()
    } else {
        let c = structure_upto(sq, bm, bb, piece_mask, king, white, n - 1);
        let p = sq[n - 1];
        if p == (if white { def::WP } else { def::BP }) {
            pawn_step(c, bm, bb, piece_mask, king, white, n - 1)
        } else if p == (if white { def::WR } else { def::BR }) {
            rook_step(c, bm, bb, white, n - 1)
        } else {
            c
        }
    }
}

/// The counts of a whole board.
pub open spec fn structure_of(sq: Seq<u8>, bm: BitMask, bb: BitBoard, white: bool, king: int) -> StructureCounts {
    structure_upto(sq, bm, bb, pieces_mask(bb), king, white, 64)
}

/// The knights, bishops, rooks and queens of both sides.
pub open spec fn pieces_mask(bb: BitBoard) -> u64 {
    bb.w_knight | bb.w_bishop | bb.w_rook | bb.w_queen | bb.b_knight | bb.b_bishop | bb.b_rook | bb.b_queen
}

fn do_pawn_step(c: &mut StructureCounts, bm: &BitMask, bb: &BitBoard, piece_mask: u64, king: usize, white: bool, i: usize, n: Ghost<int>)
    requires
        bm.wf(),
        i < 64,
        king < 64,
        0 <= n@ <= 64,
        structure_within(*old(c), 8 * n@),
    ensures
        *final(c) == pawn_step(*old(c), *bm, *bb, piece_mask, king as int, white, i as int),
        structure_within(*final(c), 8 * n@ + 8),
{
    let own = if white { bb.w_pawn } else { bb.b_pawn };
    let opp = if white { bb.b_pawn } else { bb.w_pawn };
    let file_mask = bm.file_masks[i];
    let own_fwd = if white { bm.wp_forward_masks[i] } else { bm.bp_forward_masks[i] };
    let back_fwd = if white { bm.bp_forward_masks[i] } else { bm.wp_forward_masks[i] };
    let rank = get_passer_rank(if white { def::PLAYER_W } else { def::PLAYER_B }, i);

    if (back_fwd & !file_mask) & own == 0 {
        if (own_fwd & !file_mask) & own == 0 {
            c.isolated = c.isolated + 1;
            if file_mask & opp == 0 {
                c.isolated = c.isolated + 1;
            }
        } else {
            c.behind = c.behind + 1;
            if file_mask & opp == 0 {
                c.behind = c.behind + 1;
            }
        }
    }

    if own_fwd & (opp | (own & file_mask)) == 0 {
        c.passer = c.passer + 1;
        c.passer_rank = c.passer_rank + rank - 1;

        if piece_mask == 0 {
            let control = if white { bm.wp_front_control_sqr_masks[i] } else { bm.bp_front_control_sqr_masks[i] };
            if control == 0 || control & bm.index_masks[king] != 0 {
                c.controlled_passer = c.controlled_passer + 1;
            }
        }
    } else if own_fwd & (own | opp) & file_mask == 0 && count_pieces(own_fwd & opp) == 1
        && (if white { bm.wp_connected_sqr_masks[i] } else { bm.bp_connected_sqr_masks[i] }) & own != 0 {
        c.candidate = c.candidate + 1;
        c.candidate_rank = c.candidate_rank + rank - 1;
    }

    if count_pieces(file_mask & own) > 1 {
        c.doubled = c.doubled + 1;
    }
}

fn do_rook_step(c: &mut StructureCounts, bm: &BitMask, bb: &BitBoard, white: bool, i: usize, n: Ghost<int>)
    requires
        i < 64,
        0 <= n@ <= 64,
        structure_within(*old(c), 8 * n@),
    ensures
        *final(c) == rook_step(*old(c), *bm, *bb, white, i as int),
        structure_within(*final(c), 8 * n@ + 8),
{
    let own = if white { bb.w_pawn } else { bb.b_pawn };
    let file_mask = bm.file_masks[i];
    if file_mask & (bb.w_pawn | bb.b_pawn) == 0 {
        c.rook_open = c.rook_open + 1;
    } else if file_mask & own == 0 {
        c.rook_semi_open = c.rook_semi_open + 1;
    }
}

/// What the first pass over the board gathers: the structure counts of both sides, the
/// squares attacked by each kind of piece of each side, the move mask of every square
/// and the squares of the queens.
pub struct Scan {
    pub w: StructureCounts,
    pub b: StructureCounts,
    pub wp: u64,
    pub wn: u64,
    pub wb: u64,
    pub wr: u64,
    pub wq: u64,
    pub bp: u64,
    pub bn: u64,
    pub bb: u64,
    pub br: u64,
    pub bq: u64,
    pub mov: [u64; 64],
    pub wq_index: usize,
    pub bq_index: usize,
}

/// The first pass over the squares `sq` with the boards `bb`, kings on `wk` and `bk`.
pub open spec fn scan_ok(r: Scan, sq: Seq<u8>, bm: BitMask, bb: BitBoard, wk: int, bk: int) -> bool {
    let occ = bb.w_all | bb.b_all;
    let pm = pieces_mask(bb);
    &&& r.w == structure_upto(sq, bm, bb, pm, wk, true, 64)
    &&& r.b == structure_upto(sq, bm, bb, pm, bk, false, 64)
    &&& r.wp == attacks_by(sq, bm, occ, def::WP, 64) && r.bp == attacks_by(sq, bm, occ, def::BP, 64)
    &&& r.wn == attacks_by(sq, bm, occ, def::WN, 64) && r.bn == attacks_by(sq, bm, occ, def::BN, 64)
    &&& r.wb == attacks_by(sq, bm, occ, def::WB, 64) && r.bb == attacks_by(sq, bm, occ, def::BB, 64)
    &&& r.wr == attacks_by(sq, bm, occ, def::WR, 64) && r.br == attacks_by(sq, bm, occ, def::BR, 64)
    &&& r.wq == attacks_by(sq, bm, occ, def::WQ, 64) && r.bq == attacks_by(sq, bm, occ, def::BQ, 64)
    &&& forall|k: int| 0 <= k < 64 ==> #[trigger] r.mov[k] == mov_mask_of(bm, occ, k, sq[k])
    &&& r.wq_index == last_index_of(sq, def::WQ, 64)
    &&& r.bq_index == last_index_of(sq, def::BQ, 64)
    &&& structure_within(r.w, 512) && structure_within(r.b, 512)
}

/// The first pass over the board.
pub fn scan_pieces(squares: &[u8; 64], bm: &BitMask, bb: &BitBoard, wk: usize, bk: usize) -> (r: Scan)
    requires
        bm.wf(),
        wk < 64,
        bk < 64,
    ensures
        scan_ok(r, squares@, *bm, *bb, wk as int, bk as int),
{
    let occ = bb.w_all | bb.b_all;
    let pm = bb.w_knight | bb.w_bishop | bb.w_rook | bb.w_queen | bb.b_knight | bb.b_bishop | bb.b_rook | bb.b_queen;
    let ghost sq = squares@;
    let mut r = Scan {
        w: StructureCounts { isolated: 0, behind: 0, passer: 0, passer_rank: 0, controlled_passer: 0,
            candidate: 0, candidate_rank: 0, doubled: 0, rook_open: 0, rook_semi_open: 0 },
        b: StructureCounts { isolated: 0, behind: 0, passer: 0, passer_rank: 0, controlled_passer: 0,
            candidate: 0, candidate_rank: 0, doubled: 0, rook_open: 0, rook_semi_open: 0 },
        wp: 0, wn: 0, wb: 0, wr: 0, wq: 0, bp: 0, bn: 0, bb: 0, br: 0, bq: 0,
        mov: [0; 64],
        wq_index: 0,
        bq_index: 0,
    };
    let mut i: usize = 0;
    while i < 64
        invariant
            i <= 64,
            bm.wf(),
            wk < 64,
            bk < 64,
            sq == squares@,
            occ == bb.w_all | bb.b_all,
            pm == pieces_mask(*bb),
            r.w == structure_upto(sq, *bm, *bb, pm, wk as int, true, i as int),
            r.b == structure_upto(sq, *bm, *bb, pm, bk as int, false, i as int),
            structure_within(r.w, 8 * i),
            structure_within(r.b, 8 * i),
            r.wp == attacks_by(sq, *bm, occ, def::WP, i as int) && r.bp == attacks_by(sq, *bm, occ, def::BP, i as int),
            r.wn == attacks_by(sq, *bm, occ, def::WN, i as int) && r.bn == attacks_by(sq, *bm, occ, def::BN, i as int),
            r.wb == attacks_by(sq, *bm, occ, def::WB, i as int) && r.bb == attacks_by(sq, *bm, occ, def::BB, i as int),
            r.wr == attacks_by(sq, *bm, occ, def::WR, i as int) && r.br == attacks_by(sq, *bm, occ, def::BR, i as int),
            r.wq == attacks_by(sq, *bm, occ, def::WQ, i as int) && r.bq == attacks_by(sq, *bm, occ, def::BQ, i as int),
            forall|k: int| 0 <= k < i ==> #[trigger] r.mov[k] == mov_mask_of(*bm, occ, k, sq[k]),
            forall|k: int| i <= k < 64 ==> #[trigger] r.mov[k] == 0,
            r.wq_index == last_index_of(sq, def::WQ, i as int),
            r.bq_index == last_index_of(sq, def::BQ, i as int),
        decreases 64 - i,
    {
        let p = squares[i];
        if p == def::WP {
            do_pawn_step(&mut r.w, bm, bb, pm, wk, true, i, Ghost(i as int));
        } else if p == def::WR {
            do_rook_step(&mut r.w, bm, bb, true, i, Ghost(i as int));
        }
        if p == def::BP {
            do_pawn_step(&mut r.b, bm, bb, pm, bk, false, i, Ghost(i as int));
        } else if p == def::BR {
            do_rook_step(&mut r.b, bm, bb, false, i, Ghost(i as int));
        }

        let a = get_piece_attacks(bm, occ, i, p);
        if p == def::WP { r.wp = r.wp | a; }
        else if p == def::WN { r.wn = r.wn | a; }
        else if p == def::WB { r.wb = r.wb | a; }
        else if p == def::WR { r.wr = r.wr | a; }
        else if p == def::WQ { r.wq = r.wq | a; r.wq_index = i; }
        else if p == def::BP { r.bp = r.bp | a; }
        else if p == def::BN { r.bn = r.bn | a; }
        else if p == def::BB { r.bb = r.bb | a; }
        else if p == def::BR { r.br = r.br | a; }
        else if p == def::BQ { r.bq = r.bq | a; r.bq_index = i; }

        if p != def::WP && p != def::BP {
            r.mov[i] = a;
        }
        i = i + 1;
    }
    r
}


pub const SQR_TIER_N: [i32; 64] = [
    0, 1, 1, 1, 1, 1, 1, 0,
    1, 2, 2, 2, 2, 2, 2, 1,
    1, 2, 3, 3, 3, 3, 2, 1,
    1, 2, 3, 4, 4, 3, 2, 1,
    1, 2, 3, 4, 4, 3, 2, 1,
    1, 2, 3, 3, 3, 3, 2, 1,
    1, 2, 2, 2, 2, 2, 2, 1,
    0, 1, 1, 1, 1, 1, 1, 0,
];

pub const SQR_TIER_B: [i32; 64] = [
    0, 1, 1, 1, 1, 1, 1, 0,
    1, 2, 2, 2, 2, 2, 2, 1,
    1, 2, 2, 2, 2, 2, 2, 1,
    1, 2, 2, 2, 2, 2, 2, 1,
    1, 2, 2, 2, 2, 2, 2, 1,
    1, 2, 2, 2, 2, 2, 2, 1,
    1, 2, 2, 2, 2, 2, 2, 1,
    0, 1, 1, 1, 1, 1, 1, 0,
];

pub const SQR_TIER_WK: [i32; 64] = [
    1, 2, 1, 0, 0, 0, 2, 1,
    1, 1, 0, 0, 0, 0, 1, 1,
    0, 0, 0, 0, 0, 0, 0, 0,
    0, 0, 0, 0, 0, 0, 0, 0,
    0, 0, 0, 0, 0, 0, 0, 0,
    0, 0, 0, 0, 0, 0, 0, 0,
    0, 0, 0, 0, 0, 0, 0, 0,
    0, 0, 0, 0, 0, 0, 0, 0,
];

pub const SQR_TIER_BK: [i32; 64] = [
    0, 0, 0, 0, 0, 0, 0, 0,
    0, 0, 0, 0, 0, 0, 0, 0,
    0, 0, 0, 0, 0, 0, 0, 0,
    0, 0, 0, 0, 0, 0, 0, 0,
    0, 0, 0, 0, 0, 0, 0, 0,
    0, 0, 0, 0, 0, 0, 0, 0,
    1, 1, 0, 0, 0, 0, 1, 1,
    1, 2, 1, 0, 0, 0, 2, 1,
];

pub const SQR_TIER_K_EG: [i32; 64] = [
    0, 0, 0, 0, 0, 0, 0, 0,
    0, 1, 1, 1, 1, 1, 1, 0,
    0, 1, 2, 2, 2, 2, 1, 0,
    0, 1, 2, 3, 3, 2, 1, 0,
    0, 1, 2, 3, 3, 2, 1, 0,
    0, 1, 2, 2, 2, 2, 1, 0,
    0, 1, 1, 1, 1, 1, 1, 0,
    0, 0, 0, 0, 0, 0, 0, 0,
];

pub const SQR_TIER_WP: [i32; 64] = [
    0, 0, 0, 0, 0, 0, 0, 0,
    0, 0, 0, 0, 0, 0, 0, 0,
    1, 1, 1, 1, 1, 1, 1, 1,
    2, 2, 2, 3, 3, 2, 2, 2,
    2, 3, 3, 4, 4, 3, 3, 2,
    2, 3, 4, 5, 5, 4, 3, 2,
    2, 3, 4, 5, 5, 4, 3, 2,
    0, 0, 0, 0, 0, 0, 0, 0,
];

pub const SQR_TIER_WP_EG: [i32; 64] = [
    0, 0, 0, 0, 0, 0, 0, 0,
    0, 0, 0, 0, 0, 0, 0, 0,
    1, 1, 1, 1, 1, 1, 1, 1,
    2, 2, 2, 2, 2, 2, 2, 2,
    3, 3, 3, 3, 3, 3, 3, 3,
    4, 4, 4, 4, 4, 4, 4, 4,
    5, 5, 5, 5, 5, 5, 5, 5,
    0, 0, 0, 0, 0, 0, 0, 0,
];

pub const SQR_TIER_BP: [i32; 64] = [
    0, 0, 0, 0, 0, 0, 0, 0,
    2, 3, 4, 5, 5, 4, 3, 2,
    2, 3, 4, 5, 5, 4, 3, 2,
    2, 3, 3, 4, 4, 3, 3, 2,
    2, 2, 2, 3, 3, 2, 2, 2,
    1, 1, 1, 1, 1, 1, 1, 1,
    0, 0, 0, 0, 0, 0, 0, 0,
    0, 0, 0, 0, 0, 0, 0, 0,
];

pub const SQR_TIER_BP_EG: [i32; 64] = [
    0, 0, 0, 0, 0, 0, 0, 0,
    5, 5, 5, 5, 5, 5, 5, 5,
    4, 4, 4, 4, 4, 4, 4, 4,
    3, 3, 3, 3, 3, 3, 3, 3,
    2, 2, 2, 2, 2, 2, 2, 2,
    1, 1, 1, 1, 1, 1, 1, 1,
    0, 0, 0, 0, 0, 0, 0, 0,
    0, 0, 0, 0, 0, 0, 0, 0,
];

/// The counts of the second pass for one side: pins, square values, king attacks,
/// mobility and pieces with no safe move.
#[derive(Clone, Copy)]
pub struct PieceCounts {
    pub pin: i32,
    pub semi_pin: i32,
    pub p_sqr: i32,
    pub p_eg_sqr: i32,
    pub n_sqr: i32,
    pub b_sqr: i32,
    pub k_sqr: i32,
    pub k_eg_sqr: i32,
    pub pk_attack: i32,
    pub nk_attack: i32,
    pub bk_attack: i32,
    pub rk_attack: i32,
    pub qk_attack: i32,
    pub n_mob: i32,
    pub b_mob: i32,
    pub r_mob: i32,
    pub q_mob: i32,
    pub n_stuck: i32,
    pub b_stuck: i32,
    pub r_stuck: i32,
    pub q_stuck: i32,
}

pub open spec fn zero_pieces() -> PieceCounts {
    PieceCounts { pin: 0, semi_pin: 0, p_sqr: 0, p_eg_sqr: 0, n_sqr: 0, b_sqr: 0, k_sqr: 0, k_eg_sqr: 0,
        pk_attack: 0, nk_attack: 0, bk_attack: 0, rk_attack: 0, qk_attack: 0,
        n_mob: 0, b_mob: 0, r_mob: 0, q_mob: 0, n_stuck: 0, b_stuck: 0, r_stuck: 0, q_stuck: 0 }
}

/// Every count lies within `0..=k`.
pub open spec fn pieces_within(c: PieceCounts, k: int) -> bool {
    &&& 0 <= c.pin <= k && 0 <= c.semi_pin <= k && 0 <= c.p_sqr <= k && 0 <= c.p_eg_sqr <= k
    &&& 0 <= c.n_sqr <= k && 0 <= c.b_sqr <= k && 0 <= c.k_sqr <= k && 0 <= c.k_eg_sqr <= k
    &&& 0 <= c.pk_attack <= k && 0 <= c.nk_attack <= k && 0 <= c.bk_attack <= k && 0 <= c.rk_attack <= k
    &&& 0 <= c.qk_attack <= k && 0 <= c.n_mob <= k && 0 <= c.b_mob <= k && 0 <= c.r_mob <= k
    &&& 0 <= c.q_mob <= k && 0 <= c.n_stuck <= k && 0 <= c.b_stuck <= k && 0 <= c.r_stuck <= k
    &&& 0 <= c.q_stuck <= k
}

/// What the second pass of one side needs to know of the first: its own pieces, the
/// squares attacked by the opponent's pawns, knights, bishops and rooks, all squares
/// attacked by each side, and the squares around the opposing king.
#[derive(Clone, Copy)]
pub struct SideView {
    pub own_all: u64,
    pub opp_p: u64,
    pub opp_n: u64,
    pub opp_b: u64,
    pub opp_r: u64,
    pub own_att: u64,
    pub opp_att: u64,
    pub opp_ring: u64,
}

/// The squares attacked by the pieces `piece` in `m`.
pub open spec fn att(m: StateModel, bm: BitMask, piece: u8) -> u64 {
    attacks_by(m.squares, bm, m.bitboard.w_all | m.bitboard.b_all, piece, 64)
}

/// The squares attacked by the pieces of white (`white`) or black, the king aside.
pub open spec fn att_wo_king(m: StateModel, bm: BitMask, white: bool) -> u64 {
    if white {
        att(m, bm, def::WP) | att(m, bm, def::WN) | att(m, bm, def::WB) | att(m, bm, def::WR) | att(m, bm, def::WQ)
    } else {
        att(m, bm, def::BP) | att(m, bm, def::BN) | att(m, bm, def::BB) | att(m, bm, def::BR) | att(m, bm, def::BQ)
    }
}

/// The squares attacked by the pieces of white (`white`) or black, the king included.
pub open spec fn att_all(m: StateModel, bm: BitMask, white: bool) -> u64 {
    att_wo_king(m, bm, white) | bm.k_attack_masks[if white { m.wk_index as int } else { m.bk_index as int }]
}

/// The side view of white (`white`) or black in `m`.
pub open spec fn side_view_of(m: StateModel, bm: BitMask, white: bool) -> SideView {
    if white {
        SideView { own_all: m.bitboard.w_all, opp_p: att(m, bm, def::BP), opp_n: att(m, bm, def::BN),
            opp_b: att(m, bm, def::BB), opp_r: att(m, bm, def::BR),
            own_att: att_all(m, bm, true), opp_att: att_all(m, bm, false), opp_ring: bm.k_attack_masks[m.bk_index as int] }
    } else {
        SideView { own_all: m.bitboard.b_all, opp_p: att(m, bm, def::WP), opp_n: att(m, bm, def::WN),
            opp_b: att(m, bm, def::WB), opp_r: att(m, bm, def::WR),
            own_att: att_all(m, bm, false), opp_att: att_all(m, bm, true), opp_ring: bm.k_attack_masks[m.wk_index as int] }
    }
}

/// The count of a mobility: the piece has no safe move (`stuck` counts one), or its
/// safe moves are added to the mobility count.
pub open spec fn mob_step(mob: i32, stuck: i32, m: u64) -> (i32, i32) {
    if m == 0 { (mob, (stuck + 1) as i32) } else { ((mob + piece_count(m)) as i32, stuck) }
}

/// The safe moves of a piece with move mask `mov` that avoids the squares `excl`
/// attacked by cheaper opposing pieces: no own piece there, and not a square the opponent
/// attacks that the side does not defend.
pub open spec fn safe_moves(v: SideView, mov: u64, excl: u64) -> u64 {
    mov & !excl & !v.own_all & !(v.opp_att & !v.own_att)
}

/// What the piece `p` on `i` (of the side of `v`) adds to its side's counts, pins aside.
pub open spec fn piece_step(c: PieceCounts, v: SideView, p: u8, i: int, mov: u64) -> PieceCounts {
    let k = def::kind_of(p);
    let white = def::side_of(p) == def::PLAYER_W;
    if p == def::WP || p == def::BP {
        PieceCounts {
            p_sqr: (c.p_sqr + if white { SQR_TIER_WP[i] } else { SQR_TIER_BP[i] }) as i32,
            p_eg_sqr: (c.p_eg_sqr + if white { SQR_TIER_WP_EG[i] } else { SQR_TIER_BP_EG[i] }) as i32,
            pk_attack: (c.pk_attack + 1) as i32,
            ..c
        }
    } else if p == def::WN || p == def::BN {
        let (mob, stuck) = mob_step(c.n_mob, c.n_stuck, safe_moves(v, mov, v.opp_p));
        PieceCounts {
            n_sqr: (c.n_sqr + SQR_TIER_N[i]) as i32, n_mob: mob, n_stuck: stuck,
            nk_attack: (c.nk_attack + if v.opp_ring & mov & !v.opp_p != 0 { 1int } else { 0 }) as i32,
            ..c
        }
    } else if p == def::WB || p == def::BB {
        let (mob, stuck) = mob_step(c.b_mob, c.b_stuck, safe_moves(v, mov, v.opp_p));
        PieceCounts {
            b_sqr: (c.b_sqr + SQR_TIER_B[i]) as i32, b_mob: mob, b_stuck: stuck,
            bk_attack: (c.bk_attack + if v.opp_ring & mov & !v.opp_p != 0 { 1int } else { 0 }) as i32,
            ..c
        }
    } else if p == def::WR || p == def::BR {
        let excl = v.opp_p | v.opp_n | v.opp_b;
        let (mob, stuck) = mob_step(c.r_mob, c.r_stuck, safe_moves(v, mov, excl));
        PieceCounts {
            r_mob: mob, r_stuck: stuck,
            rk_attack: (c.rk_attack + if v.opp_ring & mov & !excl != 0 { 1int } else { 0 }) as i32,
            ..c
        }
    } else if p == def::WQ || p == def::BQ {
        let excl = v.opp_p | v.opp_n | v.opp_b | v.opp_r;
        let (mob, stuck) = mob_step(c.q_mob, c.q_stuck, safe_moves(v, mov, excl));
        PieceCounts {
            q_mob: mob, q_stuck: stuck,
            qk_attack: (c.qk_attack + if v.opp_ring & mov & !excl != 0 { 1int } else { 0 }) as i32,
            ..c
        }
    } else if p == def::WK || p == def::BK {
        PieceCounts {
            k_sqr: (c.k_sqr + if white { SQR_TIER_WK[i] } else { SQR_TIER_BK[i] }) as i32,
            k_eg_sqr: (c.k_eg_sqr + SQR_TIER_K_EG[i]) as i32,
            ..c
        }
    } else { c }
}

/// The position with the piece on `i` taken off its side's board (`white` or black).
pub open spec fn lifted(m: StateModel, bm: BitMask, i: int, white: bool) -> StateModel {
    if white {
        StateModel { bitboard: BitBoard { w_all: m.bitboard.w_all ^ bm.index_masks[i], ..m.bitboard }, ..m }
    } else {
        StateModel { bitboard: BitBoard { b_all: m.bitboard.b_all ^ bm.index_masks[i], ..m.bitboard }, ..m }
    }
}

/// Whether the side `white` (or black) is in check, and whether its queen on `q_index`
/// is attacked, in `m`.
pub open spec fn king_and_queen_attacked(m: StateModel, bm: BitMask, white: bool, q_index: int) -> (bool, bool) {
    let player = if white { def::PLAYER_W } else { def::PLAYER_B };
    let queens = if white { m.bitboard.w_queen } else { m.bitboard.b_queen };
    (in_check(m, bm, player), queens != 0 && under_attack(m, bm, q_index, player))
}

/// A piece on `i` of the side `white` is pinned when lifting it exposes its king (twice
/// counted when it is not defended), and half pinned when it exposes the queen instead;
/// only what was not attacked before counts.
pub open spec fn pin_step(c: PieceCounts, m: StateModel, bm: BitMask, i: int, white: bool, q_index: int, att_wo_king: u64) -> PieceCounts {
    let (check0, queen0) = king_and_queen_attacked(m, bm, white, q_index);
    let (check1, queen1) = king_and_queen_attacked(lifted(m, bm, i, white), bm, white, q_index);
    if !check0 && check1 {
        PieceCounts { pin: (c.pin + if att_wo_king & bm.index_masks[i] == 0 { 2int } else { 1 }) as i32, ..c }
    } else if !queen0 && queen1 {
        PieceCounts { semi_pin: (c.semi_pin + 1) as i32, ..c }
    } else {
        c
    }
}

/// What the second pass gathers over the first `n` squares of `m`, for white and black.
pub open spec fn pieces_upto(m: StateModel, bm: BitMask, n: int) -> (PieceCounts, PieceCounts)
    decreases n,
{
    if n <= 0 {
        (zero_pieces(), zero_pieces())
    } else {
        let (w, b) = pieces_upto(m, bm, n - 1);
        let i = n - 1;
        let p = m.squares[i];
        let white = def::side_of(p) == def::PLAYER_W;
        let mov = mov_mask_of(bm, m.bitboard.w_all | m.bitboard.b_all, i, p);
        if p == 0 {
            (w, b)
        } else {
            let w1 = if def::kind_of(p) != def::KIND_K && white {
                pin_step(w, m, bm, i, true, last_index_of(m.squares, def::WQ, 64), att_wo_king(m, bm, true))
            } else { w };
            let b1 = if def::kind_of(p) != def::KIND_K && !white {
                pin_step(b, m, bm, i, false, last_index_of(m.squares, def::BQ, 64), att_wo_king(m, bm, false))
            } else { b };
            if white {
                (piece_step(w1, side_view_of(m, bm, true), p, i, mov), b1)
            } else {
                (w1, piece_step(b1, side_view_of(m, bm, false), p, i, mov))
            }
        }
    }
}

fn do_pin_step(c: &mut PieceCounts, state: &mut State, i: usize, white: bool, q_index: usize, att_wo_king: u64,
    check0: bool, queen0: bool, n: Ghost<int>)
    requires
        can_probe(old(state)@, *old(state).bitmask),
        crate::bitmask::index_masks_ok(old(state).bitmask.index_masks),
        i < 64,
        q_index < 64,
        0 <= n@ <= 5000,
        pieces_within(*old(c), n@),
        (check0, queen0) == king_and_queen_attacked(old(state)@, *old(state).bitmask, white, q_index as int),
    ensures
        final(state)@ == old(state)@,
        final(state).bitmask == old(state).bitmask,
        final(state).zob_keys == old(state).zob_keys,
        *final(c) == pin_step(*old(c), old(state)@, *old(state).bitmask, i as int, white, q_index as int, att_wo_king),
        pieces_within(*final(c), n@ + 2),
{
    let ghost m = state@;
    let ghost bm = *state.bitmask;
    let player = if white { def::PLAYER_W } else { def::PLAYER_B };
    let mask = state.bitmask.index_masks[i];
    let queens = if white { state.bitboard.w_queen } else { state.bitboard.b_queen };
    let ghost before = state.bitboard;
    if white {
        state.bitboard.w_all = state.bitboard.w_all ^ mask;
    } else {
        state.bitboard.b_all = state.bitboard.b_all ^ mask;
    }
    assert(state@ =~~= lifted(m, bm, i as int, white));

    let king_under = if check0 { false } else { mov_table::is_in_check(state, player) };
    let queen_under = if queen0 {
        false
    } else if queens == 0 {
        false
    } else {
        mov_table::is_under_attack(state, q_index, player)
    };

    if white {
        state.bitboard.w_all = state.bitboard.w_all ^ mask;
        assert(state.bitboard.w_all == before.w_all) by {
            let x = before.w_all;
            assert((x ^ mask) ^ mask == x) by (bit_vector);
        }
    } else {
        state.bitboard.b_all = state.bitboard.b_all ^ mask;
        assert(state.bitboard.b_all == before.b_all) by {
            let x = before.b_all;
            assert((x ^ mask) ^ mask == x) by (bit_vector);
        }
    }
    assert(state@ =~~= m);

    if king_under {
        c.pin = c.pin + 1;

        if att_wo_king & mask == 0 {
            c.pin = c.pin + 1;
        }
    } else if queen_under {
        c.semi_pin = c.semi_pin + 1;
    }
}

fn do_mob_step(mob: &mut i32, stuck: &mut i32, m: u64, n: Ghost<int>)
    requires
        0 <= n@ <= 5000,
        0 <= *old(mob) <= n@,
        0 <= *old(stuck) <= n@,
    ensures
        (*final(mob), *final(stuck)) == mob_step(*old(mob), *old(stuck), m),
        0 <= *final(mob) <= n@ + 64,
        0 <= *final(stuck) <= n@ + 64,
{
    if m == 0 {
        *stuck = *stuck + 1;
    } else {
        *mob = *mob + count_pieces(m);
    }
}

fn do_piece_step(c: &mut PieceCounts, v: &SideView, p: u8, i: usize, mov: u64, n: Ghost<int>)
    requires
        i < 64,
        0 <= n@ <= 5000,
        pieces_within(*old(c), n@),
    ensures
        *final(c) == piece_step(*old(c), *v, p, i as int, mov),
        pieces_within(*final(c), n@ + 64),
{
    let white = p % 4 == def::PLAYER_W;
    if p == def::WP || p == def::BP {
        c.p_sqr = c.p_sqr + if white { SQR_TIER_WP[i] } else { SQR_TIER_BP[i] };
        c.p_eg_sqr = c.p_eg_sqr + if white { SQR_TIER_WP_EG[i] } else { SQR_TIER_BP_EG[i] };
        c.pk_attack = c.pk_attack + 1;
    } else if p == def::WN || p == def::BN {
        c.n_sqr = c.n_sqr + SQR_TIER_N[i];
        let mobility = mov & !v.opp_p & !v.own_all & !(v.opp_att & !v.own_att);
        do_mob_step(&mut c.n_mob, &mut c.n_stuck, mobility, n);
        if v.opp_ring & mov & !v.opp_p != 0 {
            c.nk_attack = c.nk_attack + 1;
        }
    } else if p == def::WB || p == def::BB {
        c.b_sqr = c.b_sqr + SQR_TIER_B[i];
        let mobility = mov & !v.opp_p & !v.own_all & !(v.opp_att & !v.own_att);
        do_mob_step(&mut c.b_mob, &mut c.b_stuck, mobility, n);
        if v.opp_ring & mov & !v.opp_p != 0 {
            c.bk_attack = c.bk_attack + 1;
        }
    } else if p == def::WR || p == def::BR {
        let excl = v.opp_p | v.opp_n | v.opp_b;
        let mobility = mov & !excl & !v.own_all & !(v.opp_att & !v.own_att);
        do_mob_step(&mut c.r_mob, &mut c.r_stuck, mobility, n);
        if v.opp_ring & mov & !excl != 0 {
            c.rk_attack = c.rk_attack + 1;
        }
    } else if p == def::WQ || p == def::BQ {
        let excl = v.opp_p | v.opp_n | v.opp_b | v.opp_r;
        let mobility = mov & !excl & !v.own_all & !(v.opp_att & !v.own_att);
        do_mob_step(&mut c.q_mob, &mut c.q_stuck, mobility, n);
        if v.opp_ring & mov & !excl != 0 {
            c.qk_attack = c.qk_attack + 1;
        }
    } else if p == def::WK || p == def::BK {
        c.k_sqr = c.k_sqr + if white { SQR_TIER_WK[i] } else { SQR_TIER_BK[i] };
        c.k_eg_sqr = c.k_eg_sqr + SQR_TIER_K_EG[i];
    }
}

pub proof fn lemma_last_index_bound(sq: Seq<u8>, piece: u8, n: int)
    requires
        0 < n,
    ensures
        0 <= last_index_of(sq, piece, n) < n,
    decreases n,
{
    if n > 1 {
        lemma_last_index_bound(sq, piece, n - 1);
    } else {
        assert(last_index_of(sq, piece, 0) == 0);
    }
}

/// The second pass over the board: pins, square values, king attacks and mobility of
/// both sides. The position is the same afterwards.
#[verifier::rlimit(80)]
pub fn scan_pieces_second(state: &mut State, scan: &Scan, vw: &SideView, vb: &SideView) -> (r: (PieceCounts, PieceCounts))
    requires
        can_probe(old(state)@, *old(state).bitmask),
        crate::bitmask::index_masks_ok(old(state).bitmask.index_masks),
        old(state).squares@.len() == 64,
        scan_ok(*scan, old(state)@.squares, *old(state).bitmask, old(state).bitboard, old(state).wk_index as int, old(state).bk_index as int),
        *vw == side_view_of(old(state)@, *old(state).bitmask, true),
        *vb == side_view_of(old(state)@, *old(state).bitmask, false),
    ensures
        final(state)@ == old(state)@,
        final(state).bitmask == old(state).bitmask,
        final(state).zob_keys == old(state).zob_keys,
        r == pieces_upto(old(state)@, *old(state).bitmask, 64),
        pieces_within(r.0, 4224) && pieces_within(r.1, 4224),
{
    let ghost m = state@;
    let ghost bm = *state.bitmask;
    let ghost zk = state.zob_keys;
    let ghost bmr = state.bitmask;
    proof {
        lemma_last_index_bound(m.squares, def::WQ, 64);
        lemma_last_index_bound(m.squares, def::BQ, 64);
    }
    let w_in_check = mov_table::is_in_check(state, def::PLAYER_W);
    let b_in_check = mov_table::is_in_check(state, def::PLAYER_B);
    let w_queen_under_attack = if state.bitboard.w_queen == 0 {
        false
    } else {
        mov_table::is_under_attack(state, scan.wq_index, def::PLAYER_W)
    };
    let b_queen_under_attack = if state.bitboard.b_queen == 0 {
        false
    } else {
        mov_table::is_under_attack(state, scan.bq_index, def::PLAYER_B)
    };
    let w_att_wo_king = scan.wp | scan.wn | scan.wb | scan.wr | scan.wq;
    let b_att_wo_king = scan.bp | scan.bn | scan.bb | scan.br | scan.bq;

    let mut w = PieceCounts { pin: 0, semi_pin: 0, p_sqr: 0, p_eg_sqr: 0, n_sqr: 0, b_sqr: 0, k_sqr: 0, k_eg_sqr: 0,
        pk_attack: 0, nk_attack: 0, bk_attack: 0, rk_attack: 0, qk_attack: 0,
        n_mob: 0, b_mob: 0, r_mob: 0, q_mob: 0, n_stuck: 0, b_stuck: 0, r_stuck: 0, q_stuck: 0 };
    let mut b = w;
    let mut i: usize = 0;
    while i < 64
        invariant
            i <= 64,
            state@ == m,
            state.bitmask == bmr,
            state.zob_keys == zk,
            bm == *bmr,
            can_probe(m, bm),
            crate::bitmask::index_masks_ok(bm.index_masks),
            scan.wq_index < 64,
            scan.bq_index < 64,
            scan_ok(*scan, m.squares, bm, m.bitboard, m.wk_index as int, m.bk_index as int),
            *vw == side_view_of(m, bm, true),
            *vb == side_view_of(m, bm, false),
            (w_in_check, w_queen_under_attack) == king_and_queen_attacked(m, bm, true, scan.wq_index as int),
            (b_in_check, b_queen_under_attack) == king_and_queen_attacked(m, bm, false, scan.bq_index as int),
            w_att_wo_king == att_wo_king(m, bm, true),
            b_att_wo_king == att_wo_king(m, bm, false),
            (w, b) == pieces_upto(m, bm, i as int),
            pieces_within(w, 66 * i),
            pieces_within(b, 66 * i),
        decreases 64 - i,
    {
        let piece = state.squares[i];
        if piece != 0 {
            let white = def::on_same_side(def::PLAYER_W, piece);
            if !def::is_k(piece) {
                if white {
                    do_pin_step(&mut w, state, i, true, scan.wq_index, w_att_wo_king, w_in_check, w_queen_under_attack, Ghost(66 * i as int));
                } else {
                    do_pin_step(&mut b, state, i, false, scan.bq_index, b_att_wo_king, b_in_check, b_queen_under_attack, Ghost(66 * i as int));
                }
            }
            proof {
                if pieces_within(w, 66 * i) {
                    assert(pieces_within(w, 66 * i + 2));
                }
                if pieces_within(b, 66 * i) {
                    assert(pieces_within(b, 66 * i + 2));
                }
            }
            if white {
                do_piece_step(&mut w, vw, piece, i, scan.mov[i], Ghost(66 * i as int + 2));
            } else {
                do_piece_step(&mut b, vb, piece, i, scan.mov[i], Ghost(66 * i as int + 2));
            }
        }
        i = i + 1;
    }
    (w, b)
}

pub const WK_K_SIDE_MASK: u64 = 0b00000000_00000000_00000000_00000000_00000000_11100000_11100000_11100000;
pub const WK_Q_SIDE_MASK: u64 = 0b00000000_00000000_00000000_00000000_00000000_00000111_00000111_00000111;
pub const BK_K_SIDE_MASK: u64 = 0b11100000_11100000_11100000_00000000_00000000_00000000_00000000_00000000;
pub const BK_Q_SIDE_MASK: u64 = 0b00000111_00000111_00000111_00000000_00000000_00000000_00000000_00000000;

pub const W_BASE_MASK: u64 = 0b00000000_00000000_00000000_00000000_11111111_11111111_11111111_11111111;
pub const B_BASE_MASK: u64 = 0b11111111_11111111_11111111_11111111_00000000_00000000_00000000_00000000;

pub const W_3RD_RANK_MASK: u64 = 0b00000000_00000000_00000000_00000000_00000000_11111111_00000000_00000000;
pub const W_4TH_RANK_MASK: u64 = 0b00000000_00000000_00000000_00000000_11111111_00000000_00000000_00000000;

pub const B_3RD_RANK_MASK: u64 = 0b00000000_00000000_11111111_00000000_00000000_00000000_00000000_00000000;
pub const B_4TH_RANK_MASK: u64 = 0b00000000_00000000_00000000_11111111_00000000_00000000_00000000_00000000;

pub const W_CAS_MASK: u8 = 0b1100;
pub const B_CAS_MASK: u8 = 0b0011;

/// The counts of one side that rest on the whole board at once: protected pieces,
/// squares of its half left unguarded or attacked, pawns in front of its king, open and
/// half-open files at and beside its king, and castling.
#[derive(Clone, Copy)]
pub struct GlobalCounts {
    pub protected_p: i32,
    pub protected_n: i32,
    pub protected_b: i32,
    pub protected_r: i32,
    pub np_3rd: i32,
    pub np_4th: i32,
    pub unprotected: i32,
    pub under_attacked: i32,
    pub king_pawn_protection: i32,
    pub on_open: i32,
    pub on_opp_semi: i32,
    pub on_own_semi: i32,
    pub near_open: i32,
    pub near_opp_semi: i32,
    pub near_own_semi: i32,
    pub cas_rights: i32,
    pub castled: i32,
}

/// The open-file counts of a file: open (no pawns), else half-open for the opponent (no
/// `opp` pawns) and half-open for the side (no `own` pawns).
pub open spec fn file_counts(all: u64, own: u64, opp: u64, fm: u64) -> (int, int, int) {
    if all & fm == 0 {
        (1, 0, 0)
    } else {
        ((0int), if opp & fm == 0 { 1int } else { 0 }, if own & fm == 0 { 1int } else { 0 })
    }
}

/// The global counts of white (`white`) or black in `m`. On the file right of the black
/// king the own half-open test reads the white pawns, as the opponent test does.
pub open spec fn globals_of(m: StateModel, bm: BitMask, white: bool) -> GlobalCounts {
    let bb = m.bitboard;
    let own_pawn = if white { bb.w_pawn } else { bb.b_pawn };
    let opp_pawn = if white { bb.b_pawn } else { bb.w_pawn };
    let own_att = att_all(m, bm, white);
    let opp_att = att_all(m, bm, !white);
    let (op, on, ob, or, oq) = if white {
        (att(m, bm, def::BP), att(m, bm, def::BN), att(m, bm, def::BB), att(m, bm, def::BR), att(m, bm, def::BQ))
    } else {
        (att(m, bm, def::WP), att(m, bm, def::WN), att(m, bm, def::WB), att(m, bm, def::WR), att(m, bm, def::WQ))
    };
    let (sp, sn, sb, sr, sq) = if white {
        (att(m, bm, def::WP), att(m, bm, def::WN), att(m, bm, def::WB), att(m, bm, def::WR), att(m, bm, def::WQ))
    } else {
        (att(m, bm, def::BP), att(m, bm, def::BN), att(m, bm, def::BB), att(m, bm, def::BR), att(m, bm, def::BQ))
    };
    let base = if white { W_BASE_MASK } else { B_BASE_MASK };
    let k = if white { m.wk_index as int } else { m.bk_index as int };
    let k_side = if white { WK_K_SIDE_MASK } else { BK_K_SIDE_MASK };
    let q_side = if white { WK_Q_SIDE_MASK } else { BK_Q_SIDE_MASK };
    let all = bb.w_pawn | bb.b_pawn;
    let (o0, os0, ow0) = file_counts(all, own_pawn, opp_pawn, bm.file_masks[k]);
    let (o1, os1, ow1) = if k % 8 > 0 { file_counts(all, own_pawn, opp_pawn, bm.file_masks[k - 1]) } else { (0int, 0int, 0int) };
    let (o2, os2, ow2) = if k % 8 < 7 {
        file_counts(all, if white { own_pawn } else { bb.w_pawn }, opp_pawn, bm.file_masks[k + 1])
    } else { (0int, 0int, 0int) };
    let cas_mask = if white { W_CAS_MASK } else { B_CAS_MASK };
    GlobalCounts {
        protected_p: piece_count(own_pawn & own_att) as i32,
        protected_n: piece_count((if white { bb.w_knight } else { bb.b_knight }) & own_att & !op) as i32,
        protected_b: piece_count((if white { bb.w_bishop } else { bb.b_bishop }) & own_att & !op) as i32,
        protected_r: piece_count((if white { bb.w_rook } else { bb.b_rook }) & own_att & !(op | on | ob)) as i32,
        np_3rd: piece_count((if white { W_3RD_RANK_MASK } else { B_3RD_RANK_MASK }) & !sp) as i32,
        np_4th: piece_count((if white { W_4TH_RANK_MASK } else { B_4TH_RANK_MASK }) & !sp) as i32,
        unprotected: piece_count(base & !own_att) as i32,
        under_attacked: (piece_count(base & opp_att & !own_att) + piece_count(base & op)
            + piece_count(base & (on | ob) & !(sp | sn | sb))
            + piece_count(base & or & !(sp | sn | sb | sr))
            + piece_count(base & oq & !(sp | sn | sb | sr | sq))) as i32,
        king_pawn_protection: (if bm.index_masks[k] & k_side != 0 { piece_count(own_pawn & k_side) }
            else if bm.index_masks[k] & q_side != 0 { piece_count(own_pawn & q_side) } else { 0 }) as i32,
        on_open: o0 as i32,
        on_opp_semi: os0 as i32,
        on_own_semi: ow0 as i32,
        near_open: (o1 + o2) as i32,
        near_opp_semi: (os1 + os2) as i32,
        near_own_semi: (ow1 + ow2) as i32,
        cas_rights: (if m.cas_history & cas_mask == 0 && m.cas_rights & cas_mask != 0 { 1int } else { 0 }) as i32,
        castled: (if m.cas_history & cas_mask != 0 { 1int } else { 0 }) as i32,
    }
}

fn file_counts_of(all: u64, own: u64, opp: u64, fm: u64) -> (r: (i32, i32, i32))
    ensures
        (r.0 as int, r.1 as int, r.2 as int) == file_counts(all, own, opp, fm),
{
    if all & fm == 0 {
        (1, 0, 0)
    } else {
        (0, if opp & fm == 0 { 1 } else { 0 }, if own & fm == 0 { 1 } else { 0 })
    }
}

/// The global counts of one side.
pub fn side_globals(state: &State, scan: &Scan, white: bool) -> (r: GlobalCounts)
    requires
        can_probe(state@, *state.bitmask),
        scan_ok(*scan, state@.squares, *state.bitmask, state.bitboard, state.wk_index as int, state.bk_index as int),
    ensures
        r == globals_of(state@, *state.bitmask, white),
{
    let ghost m = state@;
    let bm = state.bitmask;
    let bb = state.bitboard;
    let own_pawn = if white { bb.w_pawn } else { bb.b_pawn };
    let opp_pawn = if white { bb.b_pawn } else { bb.w_pawn };
    let w_att = scan.wp | scan.wn | scan.wb | scan.wr | scan.wq | bm.k_attack_masks[state.wk_index];
    let b_att = scan.bp | scan.bn | scan.bb | scan.br | scan.bq | bm.k_attack_masks[state.bk_index];
    let own_att = if white { w_att } else { b_att };
    let opp_att = if white { b_att } else { w_att };
    let (op, on, ob, or, oq) = if white { (scan.bp, scan.bn, scan.bb, scan.br, scan.bq) } else { (scan.wp, scan.wn, scan.wb, scan.wr, scan.wq) };
    let (sp, sn, sb, sr, sq) = if white { (scan.wp, scan.wn, scan.wb, scan.wr, scan.wq) } else { (scan.bp, scan.bn, scan.bb, scan.br, scan.bq) };
    let base = if white { W_BASE_MASK } else { B_BASE_MASK };
    let k = if white { state.wk_index } else { state.bk_index };
    let k_side = if white { WK_K_SIDE_MASK } else { BK_K_SIDE_MASK };
    let q_side = if white { WK_Q_SIDE_MASK } else { BK_Q_SIDE_MASK };
    let all = bb.w_pawn | bb.b_pawn;
    let (o0, os0, ow0) = file_counts_of(all, own_pawn, opp_pawn, bm.file_masks[k]);
    let (o1, os1, ow1) = if k % 8 > 0 { file_counts_of(all, own_pawn, opp_pawn, bm.file_masks[k - 1]) } else { (0, 0, 0) };
    let (o2, os2, ow2) = if k % 8 < 7 {
        file_counts_of(all, if white { own_pawn } else { bb.w_pawn }, opp_pawn, bm.file_masks[k + 1])
    } else { (0, 0, 0) };
    let cas_mask = if white { W_CAS_MASK } else { B_CAS_MASK };

    let u1 = count_pieces(base & opp_att & !own_att);
    let u2 = count_pieces(base & op);
    let u3 = count_pieces(base & (on | ob) & !(sp | sn | sb));
    let u4 = count_pieces(base & or & !(sp | sn | sb | sr));
    let u5 = count_pieces(base & oq & !(sp | sn | sb | sr | sq));
    let kpp = if bm.index_masks[k] & k_side != 0 {
        count_pieces(own_pawn & k_side)
    } else if bm.index_masks[k] & q_side != 0 {
        count_pieces(own_pawn & q_side)
    } else {
        0
    };
    GlobalCounts {
        protected_p: count_pieces(own_pawn & own_att),
        protected_n: count_pieces((if white { bb.w_knight } else { bb.b_knight }) & own_att & !op),
        protected_b: count_pieces((if white { bb.w_bishop } else { bb.b_bishop }) & own_att & !op),
        protected_r: count_pieces((if white { bb.w_rook } else { bb.b_rook }) & own_att & !(op | on | ob)),
        np_3rd: count_pieces((if white { W_3RD_RANK_MASK } else { B_3RD_RANK_MASK }) & !sp),
        np_4th: count_pieces((if white { W_4TH_RANK_MASK } else { B_4TH_RANK_MASK }) & !sp),
        unprotected: count_pieces(base & !own_att),
        under_attacked: u1 + u2 + u3 + u4 + u5,
        king_pawn_protection: kpp,
        on_open: o0,
        on_opp_semi: os0,
        on_own_semi: ow0,
        near_open: o1 + o2,
        near_opp_semi: os1 + os2,
        near_own_semi: ow1 + ow2,
        cas_rights: if state.cas_history & cas_mask == 0 && state.cas_rights & cas_mask != 0 { 1 } else { 0 },
        castled: if state.cas_history & cas_mask != 0 { 1 } else { 0 },
    }
}


/// The feature map from structure, piece and global counts (no king mobility is counted).
pub open spec fn feature_map(s: StructureCounts, p: PieceCounts, g: GlobalCounts) -> FeatureMap {
    FeatureMap {
        p_sqr_count: p.p_sqr,
        p_eg_sqr_count: p.p_eg_sqr,
        n_sqr_count: p.n_sqr,
        b_sqr_count: p.b_sqr,
        k_sqr_count: p.k_sqr,
        k_eg_sqr_count: p.k_eg_sqr,
        passer_count: s.passer,
        passer_rank_count: s.passer_rank,
        candidate_passer_count: s.candidate,
        candidate_passer_rank_count: s.candidate_rank,
        controlled_passer_count: s.controlled_passer,
        doubled_pawn_count: s.doubled,
        isolated_pawn_count: s.isolated,
        behind_pawn_count: s.behind,
        rook_open_count: s.rook_open,
        rook_semi_open_count: s.rook_semi_open,
        pin_count: p.pin,
        semi_pin_count: p.semi_pin,
        pk_attack_count: p.pk_attack,
        nk_attack_count: p.nk_attack,
        bk_attack_count: p.bk_attack,
        rk_attack_count: p.rk_attack,
        qk_attack_count: p.qk_attack,
        king_pawn_protection_count: g.king_pawn_protection,
        king_on_open_file_count: g.on_open,
        king_on_opponent_semi_open_file_count: g.on_opp_semi,
        king_on_own_semi_open_file_count: g.on_own_semi,
        king_near_open_file_count: g.near_open,
        king_near_opponent_semi_open_file_count: g.near_opp_semi,
        king_near_own_semi_open_file_count: g.near_own_semi,
        king_cas_rights_count: g.cas_rights,
        king_caslted_count: g.castled,
        unprotected_sqr_count: g.unprotected,
        under_attacked_sqr_count: g.under_attacked,
        protected_p_count: g.protected_p,
        protected_n_count: g.protected_n,
        protected_b_count: g.protected_b,
        protected_r_count: g.protected_r,
        np_protected_3rd_rank_sqr_count: g.np_3rd,
        np_protected_4th_rank_sqr_count: g.np_4th,
        n_mobility_count: p.n_mob,
        b_mobility_count: p.b_mob,
        r_mobility_count: p.r_mob,
        q_mobility_count: p.q_mob,
        k_mobility_count: 0,
        n_stuck_count: p.n_stuck,
        b_stuck_count: p.b_stuck,
        r_stuck_count: p.r_stuck,
        q_stuck_count: p.q_stuck,
    }
}

/// The positional features of white (`white`) or black in `m` (see `structure_upto`,
/// `pieces_upto` and `globals_of`).
pub open spec fn features(m: StateModel, bm: BitMask, white: bool) -> FeatureMap {
    let pm = pieces_mask(m.bitboard);
    let king = if white { m.wk_index as int } else { m.bk_index as int };
    let s = structure_upto(m.squares, bm, m.bitboard, pm, king, white, 64);
    let (pw, pb) = pieces_upto(m, bm, 64);
    feature_map(s, if white { pw } else { pb }, globals_of(m, bm, white))
}

fn make_feature_map(s: &StructureCounts, p: &PieceCounts, g: &GlobalCounts) -> (r: FeatureMap)
    ensures
        r == feature_map(*s, *p, *g),
{
    FeatureMap {
        p_sqr_count: p.p_sqr,
        p_eg_sqr_count: p.p_eg_sqr,
        n_sqr_count: p.n_sqr,
        b_sqr_count: p.b_sqr,
        k_sqr_count: p.k_sqr,
        k_eg_sqr_count: p.k_eg_sqr,
        passer_count: s.passer,
        passer_rank_count: s.passer_rank,
        candidate_passer_count: s.candidate,
        candidate_passer_rank_count: s.candidate_rank,
        controlled_passer_count: s.controlled_passer,
        doubled_pawn_count: s.doubled,
        isolated_pawn_count: s.isolated,
        behind_pawn_count: s.behind,
        rook_open_count: s.rook_open,
        rook_semi_open_count: s.rook_semi_open,
        pin_count: p.pin,
        semi_pin_count: p.semi_pin,
        pk_attack_count: p.pk_attack,
        nk_attack_count: p.nk_attack,
        bk_attack_count: p.bk_attack,
        rk_attack_count: p.rk_attack,
        qk_attack_count: p.qk_attack,
        king_pawn_protection_count: g.king_pawn_protection,
        king_on_open_file_count: g.on_open,
        king_on_opponent_semi_open_file_count: g.on_opp_semi,
        king_on_own_semi_open_file_count: g.on_own_semi,
        king_near_open_file_count: g.near_open,
        king_near_opponent_semi_open_file_count: g.near_opp_semi,
        king_near_own_semi_open_file_count: g.near_own_semi,
        king_cas_rights_count: g.cas_rights,
        king_caslted_count: g.castled,
        unprotected_sqr_count: g.unprotected,
        under_attacked_sqr_count: g.under_attacked,
        protected_p_count: g.protected_p,
        protected_n_count: g.protected_n,
        protected_b_count: g.protected_b,
        protected_r_count: g.protected_r,
        np_protected_3rd_rank_sqr_count: g.np_3rd,
        np_protected_4th_rank_sqr_count: g.np_4th,
        n_mobility_count: p.n_mob,
        b_mobility_count: p.b_mob,
        r_mobility_count: p.r_mob,
        q_mobility_count: p.q_mob,
        k_mobility_count: 0,
        n_stuck_count: p.n_stuck,
        b_stuck_count: p.b_stuck,
        r_stuck_count: p.r_stuck,
        q_stuck_count: p.q_stuck,
    }
}

impl Evaluator {
    /// The positional features of both sides, white's first. The position is the same
    /// afterwards (a piece is lifted from the board for a moment to find pins).
    pub fn extract_features(&self, state: &mut State) -> (r: (FeatureMap, FeatureMap))
        requires
            can_probe(old(state)@, *old(state).bitmask),
            crate::bitmask::index_masks_ok(old(state).bitmask.index_masks),
        ensures
            final(state)@ == old(state)@,
            final(state).bitmask == old(state).bitmask,
            final(state).zob_keys == old(state).zob_keys,
            r == (features(old(state)@, *old(state).bitmask, true), features(old(state)@, *old(state).bitmask, false)),
    {
        let ghost m = state@;
        let ghost bmv = *state.bitmask;
        let bm = state.bitmask;
        let bb = state.bitboard;
        let scan = scan_pieces(&state.squares, bm, &bb, state.wk_index, state.bk_index);

        let w_att = scan.wp | scan.wn | scan.wb | scan.wr | scan.wq | bm.k_attack_masks[state.wk_index];
        let b_att = scan.bp | scan.bn | scan.bb | scan.br | scan.bq | bm.k_attack_masks[state.bk_index];
        let vw = SideView { own_all: bb.w_all, opp_p: scan.bp, opp_n: scan.bn, opp_b: scan.bb, opp_r: scan.br,
            own_att: w_att, opp_att: b_att, opp_ring: bm.k_attack_masks[state.bk_index] };
        let vb = SideView { own_all: bb.b_all, opp_p: scan.wp, opp_n: scan.wn, opp_b: scan.wb, opp_r: scan.wr,
            own_att: b_att, opp_att: w_att, opp_ring: bm.k_attack_masks[state.wk_index] };
        assert(vw == side_view_of(m, bmv, true));
        assert(vb == side_view_of(m, bmv, false));

        let gw = side_globals(state, &scan, true);
        let gb = side_globals(state, &scan, false);
        proof {
            lemma_last_index_bound(m.squares, def::WQ, 64);
            lemma_last_index_bound(m.squares, def::BQ, 64);
        }
        let (pw, pb) = scan_pieces_second(state, &scan, &vw, &vb);

        let w_map = make_feature_map(&scan.w, &pw, &gw);
        let b_map = make_feature_map(&scan.b, &pb, &gb);
        (w_map, b_map)
    }
}


/// The pawn board of white (`white`) or black.
pub open spec fn pawn_board(bb: BitBoard, white: bool) -> u64 {
    if white { bb.w_pawn } else { bb.b_pawn }
}

/// The piece code of a pawn of white (`white`) or black.
pub open spec fn pawn_code(white: bool) -> u8 {
    if white { def::WP } else { def::BP }
}

/// The pawns `pawn` on the file `file` among the first `n` squares.
pub open spec fn pawns_on_file(sq: Seq<u8>, pawn: u8, file: int, n: int) -> nat
    decreases n,
{
    if n <= 0 {
        0
    } else {
        pawns_on_file(sq, pawn, file, n - 1) + if (n - 1) % 8 == file && sq[n - 1] == pawn { 1nat } else { 0nat }
    }
}

/// The pawns `pawn` among the first `n` squares whose file holds another pawn `pawn`.
pub open spec fn doubled_upto(sq: Seq<u8>, pawn: u8, n: int) -> nat
    decreases n,
{
    if n <= 0 {
        0
    } else {
        doubled_upto(sq, pawn, n - 1)
            + if sq[n - 1] == pawn && pawns_on_file(sq, pawn, (n - 1) % 8, 64) > 1 { 1nat } else { 0nat }
    }
}

proof fn lemma_pawns_on_file_bits(x: u64, sq: Seq<u8>, pawn: u8, file: int, n: int)
    requires
        0 <= n <= 64,
        forall|j: int| 0 <= j < 64 ==> (#[trigger] crate::bits::has_bit(x, j) <==> (j % 8 == file && sq[j] == pawn)),
    ensures
        crate::eval::bit_count(x, n) == pawns_on_file(sq, pawn, file, n),
    decreases n,
{
    if n > 0 {
        lemma_pawns_on_file_bits(x, sq, pawn, file, n - 1);
        assert(crate::bits::has_bit(x, n - 1) <==> ((n - 1) % 8 == file && sq[n - 1] == pawn));
    }
}

proof fn lemma_doubled_upto(sq: Seq<u8>, bm: BitMask, bb: BitBoard, piece_mask: u64, king: int, white: bool, n: int)
    requires
        0 <= n <= 64,
        bm.wf(),
        forall|j: int| 0 <= j < 64 ==> (#[trigger] crate::bits::has_bit(pawn_board(bb, white), j)
            <==> sq[j] == pawn_code(white)),
    ensures
        structure_upto(sq, bm, bb, piece_mask, king, white, n).doubled == doubled_upto(sq, pawn_code(white), n),
    decreases n,
{
    let pawn = pawn_code(white);
    if n > 0 {
        lemma_doubled_upto(sq, bm, bb, piece_mask, king, white, n - 1);
        lemma_doubled_bound(sq, pawn, n - 1);
        let i = n - 1;
        let own = pawn_board(bb, white);
        let x = bm.file_masks[i] & own;
        assert forall|j: int| 0 <= j < 64 implies (#[trigger] crate::bits::has_bit(x, j) <==> (j % 8 == i % 8 && sq[j] == pawn)) by {
            crate::bits::lemma_and_bit(bm.file_masks[i], own, j);
            assert(crate::bits::has_bit(own, j) <==> sq[j] == pawn);
            assert(crate::bits::has_bit(bm.file_masks[i], j) <==> crate::bitmask::same_file(i, j));
        }
        lemma_pawns_on_file_bits(x, sq, pawn, i % 8, 64);
        assert(piece_count(x) == pawns_on_file(sq, pawn, i % 8, 64));
    }
}

/// The doubled-pawn count of a side is the number of its pawns whose file holds another of
/// its pawns, counted over the squares (for a position whose pawn board matches its squares
/// and masks that are what their names say).
pub proof fn lemma_doubled_pawn_count(m: StateModel, bm: BitMask, white: bool)
    requires
        bm.wf(),
        forall|j: int| 0 <= j < 64 ==> (#[trigger] crate::bits::has_bit(pawn_board(m.bitboard, white), j)
            <==> m.squares[j] == pawn_code(white)),
    ensures
        features(m, bm, white).doubled_pawn_count == doubled_upto(m.squares, pawn_code(white), 64),
{
    let pm = pieces_mask(m.bitboard);
    let king = if white { m.wk_index as int } else { m.bk_index as int };
    lemma_doubled_upto(m.squares, bm, m.bitboard, pm, king, white, 64);
    lemma_doubled_bound(m.squares, pawn_code(white), 64);
}

proof fn lemma_doubled_bound(sq: Seq<u8>, pawn: u8, n: int)
    requires
        0 <= n,
    ensures
        doubled_upto(sq, pawn, n) <= n,
    decreases n,
{
    if n > 0 {
        lemma_doubled_bound(sq, pawn, n - 1);
    }
}

} // verus!
