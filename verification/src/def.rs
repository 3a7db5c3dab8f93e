//! Board geometry, piece codes, move kinds and the predicates on them.
//!
//! A square is an index `rank * 8 + file` in `0..64`, a1 being 0 and h8 63.
//! A piece code is `kind * 4 + side`, where the side is `PLAYER_W` or
//! `PLAYER_B` and the kind runs from pawn (1) to king (6); 0 is an empty square.
use vstd::prelude::*;

verus! {

pub const DIM_SIZE: usize = 8;
pub const BOARD_SIZE: usize = 64;
pub const PIECE_CODE_RANGE: usize = 27;

pub const PLAYER_W: u8 = 2;
pub const PLAYER_B: u8 = 1;

pub const KIND_P: u8 = 1;
pub const KIND_N: u8 = 2;
pub const KIND_B: u8 = 3;
pub const KIND_R: u8 = 4;
pub const KIND_Q: u8 = 5;
pub const KIND_K: u8 = 6;

pub const WP: u8 = 6;
pub const WN: u8 = 10;
pub const WB: u8 = 14;
pub const WR: u8 = 18;
pub const WQ: u8 = 22;
pub const WK: u8 = 26;

pub const BP: u8 = 5;
pub const BN: u8 = 9;
pub const BB: u8 = 13;
pub const BR: u8 = 17;
pub const BQ: u8 = 21;
pub const BK: u8 = 25;

pub const MOV_REG: u8 = 1;
pub const MOV_CAS: u8 = 2;
pub const MOV_ENP: u8 = 3;
pub const MOV_CR_ENP: u8 = 4;
pub const MOV_PROMO: u8 = 5;

pub const CAS_SQUARE_WK: usize = 6;
pub const CAS_SQUARE_WQ: usize = 2;
pub const CAS_SQUARE_BK: usize = 62;
pub const CAS_SQUARE_BQ: usize = 58;

pub const MIN_HASH_SIZE_MB: usize = 16;
pub const MAX_HASH_SIZE_MB: usize = 1024;
pub const DEFAULT_HASH_SIZE_MB: usize = 16;
pub const MIN_HASH_SIZE_UNIT: usize = 524288;
pub const DEFAULT_HASH_SIZE_UNIT: usize = 524288;

pub const MAX_DEPTH: u8 = 128;

pub const MAX_MOV_COUNT: usize = 5890;
pub const MAX_CAP_COUNT: usize = 5888;

/// The kind of a piece code (0 for an empty square).
pub open spec fn kind_of(piece: u8) -> u8 {
    piece / 4
}

/// The side of a piece code (0 for an empty square).
pub open spec fn side_of(piece: u8) -> u8 {
    piece % 4
}

/// A code that stands for a piece on the board.
pub open spec fn is_piece(piece: u8) -> bool {
    &&& KIND_P <= kind_of(piece) <= KIND_K
    &&& (side_of(piece) == PLAYER_W || side_of(piece) == PLAYER_B)
}

/// A code that may stand on a square: empty or a piece.
pub open spec fn is_square_code(piece: u8) -> bool {
    piece == 0 || is_piece(piece)
}

pub open spec fn is_player(player: u8) -> bool {
    player == PLAYER_W || player == PLAYER_B
}

pub open spec fn opposite(player: u8) -> u8 {
    if player == PLAYER_W { PLAYER_B } else if player == PLAYER_B { PLAYER_W } else { player ^ 3 }
}

pub open spec fn file_of(index: int) -> int {
    index % 8
}

pub open spec fn rank_of(index: int) -> int {
    index / 8
}

pub fn get_opposite_player(player: u8) -> (r: u8)
    ensures
        r == player ^ 3,
        is_player(player) ==> r == opposite(player) && is_player(r),
{
    let r = player ^ 3;
    proof {
        assert(2u8 ^ 3u8 == 1u8) by (bit_vector);
        assert(1u8 ^ 3u8 == 2u8) by (bit_vector);
    }
    r
}

pub fn on_same_side(player: u8, piece: u8) -> (r: bool)
    requires
        is_player(player),
    ensures
        r == (piece != 0 && side_of(piece) == player),
{
    piece != 0 && piece % 4 == player
}

pub fn is_p(piece: u8) -> (r: bool)
    ensures
        r == (kind_of(piece) == KIND_P),
{
    piece / 4 == KIND_P
}

pub fn is_n(piece: u8) -> (r: bool)
    ensures
        r == (kind_of(piece) == KIND_N),
{
    piece / 4 == KIND_N
}

pub fn is_b(piece: u8) -> (r: bool)
    ensures
        r == (kind_of(piece) == KIND_B),
{
    piece / 4 == KIND_B
}

pub fn is_r(piece: u8) -> (r: bool)
    ensures
        r == (kind_of(piece) == KIND_R),
{
    piece / 4 == KIND_R
}

pub fn is_q(piece: u8) -> (r: bool)
    ensures
        r == (kind_of(piece) == KIND_Q),
{
    piece / 4 == KIND_Q
}

pub fn is_k(piece: u8) -> (r: bool)
    ensures
        r == (kind_of(piece) == KIND_K),
{
    piece / 4 == KIND_K
}

/// Every code that may stand on a square indexes the key table.
pub proof fn lemma_square_code_range(piece: u8)
    requires
        is_square_code(piece),
    ensures
        (piece as int) < PIECE_CODE_RANGE,
{
}

} // verus!
