//! The position: squares, side to move, castling rights, en-passant square, the
//! Zobrist key and the bitboards, with the stacks that let a move be taken back.
use vstd::prelude::*;
use crate::def;
use crate::bits::single;
use crate::bitboard::{BitBoard, toggled, matches_squares, lemma_toggle_matches};
use crate::bitmask::{BitMask, index_masks_ok};
use crate::bits::{has_bit, lemma_zero_bit};
use crate::text::{str_to_chars, split_chars, split, parse_decimal, seqs_of};
use crate::fen::{fen_ok, fen_fields, fen_squares, fen_player, fen_cas_rights, fen_enp_square,
    fen_non_cap_mov_count, placement_ok, placement_squares, expand_rank, expand_rank_chars, cas_rights_of,
    check_rank, check_decimal_upto};

verus! {

pub const LAST_DUP_POS_INDEX: usize = 4;
pub const MIN_POS_COUNT_FOR_REP: usize = 6;

pub struct State<'state> {
    pub squares: [u8; 64],
    pub player: u8,
    pub cas_rights: u8,
    pub enp_square: usize,
    pub non_cap_mov_count: u16,
    pub hash_key: u64,

    pub wk_index: usize,
    pub bk_index: usize,

    pub bitboard: BitBoard,
    pub bitboard_stack: Vec<BitBoard>,
    pub bitmask: &'state BitMask,

    pub taken_piece_stack: Vec<u8>,
    pub enp_sqr_stack: Vec<usize>,
    pub cas_rights_stack: Vec<u8>,
    pub cas_history: u8,
    pub cas_history_stack: Vec<u8>,
    pub history_mov_stack: Vec<(u8, usize, usize)>,
    pub history_pos_stack: Vec<u64>,
    pub non_cap_mov_count_stack: Vec<u16>,
    pub wk_index_stack: Vec<usize>,
    pub bk_index_stack: Vec<usize>,

    pub zob_keys: &'state Vec<Vec<u64>>,
}

/// Everything a position holds, as mathematical values.
#[verifier::ext_equal]
pub struct StateModel {
    pub squares: Seq<u8>,
    pub player: u8,
    pub cas_rights: u8,
    pub enp_square: usize,
    pub non_cap_mov_count: u16,
    pub hash_key: u64,
    pub wk_index: usize,
    pub bk_index: usize,
    pub bitboard: BitBoard,
    pub bitboard_stack: Seq<BitBoard>,
    pub taken_piece_stack: Seq<u8>,
    pub enp_sqr_stack: Seq<usize>,
    pub cas_rights_stack: Seq<u8>,
    pub cas_history: u8,
    pub cas_history_stack: Seq<u8>,
    pub history_mov_stack: Seq<(u8, usize, usize)>,
    pub history_pos_stack: Seq<u64>,
    pub non_cap_mov_count_stack: Seq<u16>,
    pub wk_index_stack: Seq<usize>,
    pub bk_index_stack: Seq<usize>,
}

impl<'state> View for State<'state> {
    type V = StateModel;

    open spec fn view(&self) -> StateModel {
        StateModel {
            squares: self.squares@,
            player: self.player,
            cas_rights: self.cas_rights,
            enp_square: self.enp_square,
            non_cap_mov_count: self.non_cap_mov_count,
            hash_key: self.hash_key,
            wk_index: self.wk_index,
            bk_index: self.bk_index,
            bitboard: self.bitboard,
            bitboard_stack: self.bitboard_stack@,
            taken_piece_stack: self.taken_piece_stack@,
            enp_sqr_stack: self.enp_sqr_stack@,
            cas_rights_stack: self.cas_rights_stack@,
            cas_history: self.cas_history,
            cas_history_stack: self.cas_history_stack@,
            history_mov_stack: self.history_mov_stack@,
            history_pos_stack: self.history_pos_stack@,
            non_cap_mov_count_stack: self.non_cap_mov_count_stack@,
            wk_index_stack: self.wk_index_stack@,
            bk_index_stack: self.bk_index_stack@,
        }
    }
}

/// A table of Zobrist keys with a row for every square and a column for every piece code.
pub open spec fn keys_ok(keys: Seq<Vec<u64>>) -> bool {
    &&& keys.len() >= def::BOARD_SIZE
    &&& forall|i: int| 0 <= i < def::BOARD_SIZE ==> #[trigger] keys[i]@.len() >= def::PIECE_CODE_RANGE
}

/// The key of a piece code on a square.
pub open spec fn zk(keys: Seq<Vec<u64>>, index: int, piece: u8) -> u64 {
    keys[index]@[piece as int]
}

/// The Zobrist key of the first `n` squares: the keys of their pieces combined by xor.
pub open spec fn zob_hash_upto(squares: Seq<u8>, keys: Seq<Vec<u64>>, n: int) -> u64
    decreases n,
{
    if n <= 0 {
        0
    } else {
        let rest = zob_hash_upto(squares, keys, n - 1);
        if squares[n - 1] == 0 { rest } else { rest ^ zk(keys, n - 1, squares[n - 1]) }
    }
}

/// The Zobrist key of a board: the xor of the keys of all pieces on it.
pub open spec fn zob_hash(squares: Seq<u8>, keys: Seq<Vec<u64>>) -> u64 {
    zob_hash_upto(squares, keys, 64)
}

/// The castling rights left after `moving` leaves `from` in a regular move.
pub open spec fn cas_rights_after(cas_rights: u8, moving: u8, from: int) -> u8 {
    if moving == def::WR {
        if from == 0 { cas_rights & 0b1011 } else if from == 7 { cas_rights & 0b0111 } else { cas_rights }
    } else if moving == def::BR {
        if from == 56 { cas_rights & 0b1110 } else if from == 63 { cas_rights & 0b1101 } else { cas_rights }
    } else if moving == def::WK {
        if from == 4 { cas_rights & 0b0011 } else { cas_rights }
    } else if moving == def::BK {
        if from == 60 { cas_rights & 0b1100 } else { cas_rights }
    } else {
        cas_rights
    }
}

/// A regular move or capture from `from` to `to`.
pub open spec fn reg_mov_model(m: StateModel, keys: Seq<Vec<u64>>, from: int, to: int) -> StateModel {
    let moving = m.squares[from];
    let taken = m.squares[to];
    let h1 = m.hash_key ^ zk(keys, from, moving) ^ zk(keys, to, moving);
    let b1 = toggled(toggled(m.bitboard, moving, single(from)), moving, single(to));
    StateModel {
        hash_key: if taken == 0 { h1 } else { h1 ^ zk(keys, to, taken) },
        bitboard: if taken == 0 { b1 } else { toggled(b1, taken, single(to)) },
        non_cap_mov_count: if taken != 0 || def::kind_of(moving) == def::KIND_P { 0 } else { (m.non_cap_mov_count + 1) as u16 },
        taken_piece_stack: m.taken_piece_stack.push(taken),
        squares: m.squares.update(to, moving).update(from, 0),
        cas_rights: cas_rights_after(m.cas_rights, moving, from),
        wk_index: if moving == def::WK { to as usize } else { m.wk_index },
        bk_index: if moving == def::BK { to as usize } else { m.bk_index },
        ..m
    }
}

/// A promotion of the pawn on `from` to `promo` on `to`, capturing or not; a promotion
/// without capture counts as a reversible move, as the engine has always counted it.
pub open spec fn promo_mov_model(m: StateModel, keys: Seq<Vec<u64>>, from: int, to: int, promo: u8) -> StateModel {
    let moving = m.squares[from];
    let taken = m.squares[to];
    let h1 = m.hash_key ^ zk(keys, from, moving) ^ zk(keys, to, promo);
    let b1 = toggled(toggled(m.bitboard, moving, single(from)), promo, single(to));
    StateModel {
        hash_key: if taken == 0 { h1 } else { h1 ^ zk(keys, to, taken) },
        bitboard: if taken == 0 { b1 } else { toggled(b1, taken, single(to)) },
        non_cap_mov_count: if taken == 0 { (m.non_cap_mov_count + 1) as u16 } else { 0 },
        taken_piece_stack: m.taken_piece_stack.push(taken),
        squares: m.squares.update(to, promo).update(from, 0),
        ..m
    }
}

/// The squares of a castling move that ends with the king on `to`:
/// (king's square before, rook's square before, rook's square after, king, rook, right kept mask).
pub open spec fn castle_squares(to: int) -> (int, int, int, u8, u8, u8) {
    if to == def::CAS_SQUARE_WK { (4, 7, 5, def::WK, def::WR, 0b0111) }
    else if to == def::CAS_SQUARE_BK { (60, 63, 61, def::BK, def::BR, 0b1101) }
    else if to == def::CAS_SQUARE_WQ { (4, 0, 3, def::WK, def::WR, 0b1011) }
    else { (60, 56, 59, def::BK, def::BR, 0b1110) }
}

pub open spec fn is_castle_square(to: int) -> bool {
    to == def::CAS_SQUARE_WK || to == def::CAS_SQUARE_BK || to == def::CAS_SQUARE_WQ || to == def::CAS_SQUARE_BQ
}

/// A castling move that ends with the king on `to`; nothing but the counter changes
/// when `to` is not a castling square.
pub open spec fn cas_mov_model(m: StateModel, keys: Seq<Vec<u64>>, to: int) -> StateModel {
    let (k, r, rt, kp, rp, keep) = castle_squares(to);
    if is_castle_square(to) {
        StateModel {
            non_cap_mov_count: 0,
            cas_rights: m.cas_rights & keep,
            cas_history: m.cas_history | (15u8 ^ keep),
            wk_index: if kp == def::WK { to as usize } else { m.wk_index },
            bk_index: if kp == def::BK { to as usize } else { m.bk_index },
            squares: m.squares.update(k, 0).update(r, 0).update(rt, rp).update(to, kp),
            hash_key: m.hash_key ^ zk(keys, k, kp) ^ zk(keys, r, rp) ^ zk(keys, to, kp) ^ zk(keys, rt, rp),
            bitboard: toggled(toggled(toggled(toggled(m.bitboard, kp, single(k)), rp, single(r)), kp, single(to)), rp, single(rt)),
            ..m
        }
    } else {
        StateModel { non_cap_mov_count: 0, ..m }
    }
}

/// The square of the pawn taken en passant by `player` landing on `to`.
pub open spec fn enp_taken_index(player: u8, to: int) -> int {
    if player == def::PLAYER_W { to - 8 } else { to + 8 }
}

/// An en-passant capture from `from` to `to`.
pub open spec fn enp_mov_model(m: StateModel, keys: Seq<Vec<u64>>, from: int, to: int) -> StateModel {
    let ti = enp_taken_index(m.player, to);
    let moving = m.squares[from];
    let taken = m.squares[ti];
    StateModel {
        non_cap_mov_count: 0,
        hash_key: m.hash_key ^ zk(keys, from, moving) ^ zk(keys, to, moving) ^ zk(keys, ti, taken),
        bitboard: toggled(toggled(toggled(m.bitboard, moving, single(from)), moving, single(to)), taken, single(ti)),
        taken_piece_stack: m.taken_piece_stack.push(taken),
        squares: m.squares.update(to, moving).update(from, 0).update(ti, 0),
        ..m
    }
}

/// A pawn's double step from `from` to `to`, which opens an en-passant square.
pub open spec fn cr_enp_mov_model(m: StateModel, keys: Seq<Vec<u64>>, from: int, to: int) -> StateModel {
    let moving = m.squares[from];
    StateModel {
        enp_square: enp_taken_index(m.player, to) as usize,
        non_cap_mov_count: (m.non_cap_mov_count + 1) as u16,
        hash_key: m.hash_key ^ zk(keys, from, moving) ^ zk(keys, to, moving),
        bitboard: toggled(toggled(m.bitboard, moving, single(from)), moving, single(to)),
        squares: m.squares.update(to, moving).update(from, 0),
        ..m
    }
}

/// The position after the move: what is restored on taking it back is pushed first,
/// the move is played, and the side to move changes.
pub open spec fn do_mov_model(m: StateModel, keys: Seq<Vec<u64>>, from: int, to: int, mov_type: u8, promo: u8) -> StateModel {
    let pushed = StateModel {
        cas_rights_stack: m.cas_rights_stack.push(m.cas_rights),
        cas_history_stack: m.cas_history_stack.push(m.cas_history),
        enp_sqr_stack: m.enp_sqr_stack.push(m.enp_square),
        history_mov_stack: m.history_mov_stack.push((m.player, from as usize, to as usize)),
        history_pos_stack: m.history_pos_stack.push(m.hash_key),
        non_cap_mov_count_stack: m.non_cap_mov_count_stack.push(m.non_cap_mov_count),
        wk_index_stack: m.wk_index_stack.push(m.wk_index),
        bk_index_stack: m.bk_index_stack.push(m.bk_index),
        bitboard_stack: m.bitboard_stack.push(m.bitboard),
        enp_square: 0,
        ..m
    };
    let moved = if mov_type == def::MOV_REG { reg_mov_model(pushed, keys, from, to) }
        else if mov_type == def::MOV_PROMO { promo_mov_model(pushed, keys, from, to, promo) }
        else if mov_type == def::MOV_CAS { cas_mov_model(pushed, keys, to) }
        else if mov_type == def::MOV_ENP { enp_mov_model(pushed, keys, from, to) }
        else { cr_enp_mov_model(pushed, keys, from, to) };
    StateModel { player: def::opposite(m.player), ..moved }
}

pub open spec fn is_mov_type(mov_type: u8) -> bool {
    1 <= mov_type <= 5
}

/// The moves that `do_mov` can play without an index leaving the board,
/// a piece code leaving the key table or the counter overflowing.
pub open spec fn can_do_mov(m: StateModel, from: int, to: int, mov_type: u8, promo: u8) -> bool {
    &&& 0 <= from < 64
    &&& 0 <= to < 64
    &&& is_mov_type(mov_type)
    &&& mov_type == def::MOV_PROMO ==> (promo as int) < def::PIECE_CODE_RANGE
    &&& mov_type == def::MOV_REG && m.squares[to] == 0 && def::kind_of(m.squares[from]) != def::KIND_P
            ==> m.non_cap_mov_count < u16::MAX
    &&& mov_type == def::MOV_CR_ENP ==> m.non_cap_mov_count < u16::MAX
    &&& mov_type == def::MOV_PROMO && m.squares[to] == 0 ==> m.non_cap_mov_count < u16::MAX
    &&& (mov_type == def::MOV_ENP || mov_type == def::MOV_CR_ENP) ==> 0 <= enp_taken_index(m.player, to) < 64
}

/// The position after taking back a move: what `do_mov` pushed is popped, the side to
/// move changes back and the squares are put back.
pub open spec fn undo_mov_model(m: StateModel, from: int, to: int, mov_type: u8) -> StateModel {
    let player = def::opposite(m.player);
    let popped = StateModel {
        cas_rights: m.cas_rights_stack.last(),
        cas_rights_stack: m.cas_rights_stack.drop_last(),
        cas_history: m.cas_history_stack.last(),
        cas_history_stack: m.cas_history_stack.drop_last(),
        enp_square: m.enp_sqr_stack.last(),
        enp_sqr_stack: m.enp_sqr_stack.drop_last(),
        non_cap_mov_count: m.non_cap_mov_count_stack.last(),
        non_cap_mov_count_stack: m.non_cap_mov_count_stack.drop_last(),
        wk_index: m.wk_index_stack.last(),
        wk_index_stack: m.wk_index_stack.drop_last(),
        bk_index: m.bk_index_stack.last(),
        bk_index_stack: m.bk_index_stack.drop_last(),
        hash_key: m.history_pos_stack.last(),
        history_pos_stack: m.history_pos_stack.drop_last(),
        bitboard: m.bitboard_stack.last(),
        bitboard_stack: m.bitboard_stack.drop_last(),
        history_mov_stack: if m.history_mov_stack.len() > 0 { m.history_mov_stack.drop_last() } else { m.history_mov_stack },
        player: player,
        ..m
    };
    if mov_type == def::MOV_REG {
        let moving = m.squares[to];
        StateModel {
            squares: m.squares.update(to, m.taken_piece_stack.last()).update(from, moving),
            taken_piece_stack: m.taken_piece_stack.drop_last(),
            ..popped
        }
    } else if mov_type == def::MOV_PROMO {
        let moving = if player == def::PLAYER_W { def::WP } else { def::BP };
        StateModel {
            squares: m.squares.update(to, m.taken_piece_stack.last()).update(from, moving),
            taken_piece_stack: m.taken_piece_stack.drop_last(),
            ..popped
        }
    } else if mov_type == def::MOV_CAS {
        let (k, r, rt, kp, rp, keep) = castle_squares(to);
        if is_castle_square(to) {
            StateModel { squares: m.squares.update(k, kp).update(r, rp).update(rt, 0).update(to, 0), ..popped }
        } else {
            popped
        }
    } else if mov_type == def::MOV_ENP {
        let ti = enp_taken_index(player, to);
        let moving = m.squares[to];
        StateModel {
            squares: m.squares.update(ti, m.taken_piece_stack.last()).update(from, moving).update(to, 0),
            taken_piece_stack: m.taken_piece_stack.drop_last(),
            ..popped
        }
    } else {
        let moving = m.squares[to];
        StateModel { squares: m.squares.update(from, moving).update(to, 0), ..popped }
    }
}

/// The moves that `undo_mov` can take back without popping an empty stack
/// or an index leaving the board.
pub open spec fn can_undo_mov(m: StateModel, from: int, to: int, mov_type: u8) -> bool {
    &&& 0 <= from < 64
    &&& 0 <= to < 64
    &&& is_mov_type(mov_type)
    &&& m.cas_rights_stack.len() > 0
    &&& m.cas_history_stack.len() > 0
    &&& m.enp_sqr_stack.len() > 0
    &&& m.non_cap_mov_count_stack.len() > 0
    &&& m.wk_index_stack.len() > 0
    &&& m.bk_index_stack.len() > 0
    &&& m.history_pos_stack.len() > 0
    &&& m.bitboard_stack.len() > 0
    &&& (mov_type == def::MOV_REG || mov_type == def::MOV_PROMO || mov_type == def::MOV_ENP)
            ==> m.taken_piece_stack.len() > 0
    &&& mov_type == def::MOV_ENP ==> 0 <= enp_taken_index(def::opposite(m.player), to) < 64
}

impl<'state> State<'state> {
    /// The key table and the masks can be indexed by any square and piece code, the
    /// squares hold piece codes and the side to move is a player.
    pub open spec fn wf(&self) -> bool {
        &&& keys_ok(self.zob_keys@)
        &&& index_masks_ok(self.bitmask.index_masks)
        &&& forall|i: int| 0 <= i < 64 ==> #[trigger] def::is_square_code(self.squares[i])
        &&& def::is_player(self.player)
    }

    fn zob_key(&self, index: usize, piece: u8) -> (r: u64)
        requires
            keys_ok(self.zob_keys@),
            index < 64,
            (piece as int) < def::PIECE_CODE_RANGE,
        ensures
            r == zk(self.zob_keys@, index as int, piece),
    {
        self.zob_keys[index][piece as usize]
    }
}

impl<'state> State<'state> {
    fn do_reg_mov(&mut self, from: usize, to: usize)
        requires
            old(self).wf(),
            from < 64,
            to < 64,
            old(self).squares[to as int] == 0 && def::kind_of(old(self).squares[from as int]) != def::KIND_P
                ==> old(self).non_cap_mov_count < u16::MAX,
        ensures
            final(self)@ == reg_mov_model(old(self)@, old(self).zob_keys@, from as int, to as int),
            final(self).zob_keys == old(self).zob_keys,
            final(self).bitmask == old(self).bitmask,
    {
        let moving_piece = self.squares[from];
        let taken_piece = self.squares[to];
        proof {
            def::lemma_square_code_range(self.squares[from as int]);
            def::lemma_square_code_range(self.squares[to as int]);
        }

        self.hash_key = self.hash_key ^ self.zob_key(from, moving_piece);
        self.hash_key = self.hash_key ^ self.zob_key(to, moving_piece);

        let from_mask = self.bitmask.index_masks[from];
        let to_mask = self.bitmask.index_masks[to];
        self.bitboard.toggle(moving_piece, from_mask);
        self.bitboard.toggle(moving_piece, to_mask);

        if taken_piece == 0 {
            if def::is_p(moving_piece) {
                self.non_cap_mov_count = 0;
            } else {
                self.non_cap_mov_count = self.non_cap_mov_count + 1;
            }
        } else {
            self.non_cap_mov_count = 0;
            self.hash_key = self.hash_key ^ self.zob_key(to, taken_piece);
            self.bitboard.toggle(taken_piece, to_mask);
        }

        self.taken_piece_stack.push(taken_piece);
        self.squares[to] = moving_piece;
        self.squares[from] = 0;

        if moving_piece == def::WR {
            if from == 0 {
                self.cas_rights = self.cas_rights & 0b1011;
            } else if from == 7 {
                self.cas_rights = self.cas_rights & 0b0111;
            }
        } else if moving_piece == def::BR {
            if from == 56 {
                self.cas_rights = self.cas_rights & 0b1110;
            } else if from == 63 {
                self.cas_rights = self.cas_rights & 0b1101;
            }
        } else if moving_piece == def::WK {
            if from == 4 {
                self.cas_rights = self.cas_rights & 0b0011;
            }
            self.wk_index = to;
        } else if moving_piece == def::BK {
            if from == 60 {
                self.cas_rights = self.cas_rights & 0b1100;
            }
            self.bk_index = to;
        }
        assert(self@ =~~= reg_mov_model(old(self)@, old(self).zob_keys@, from as int, to as int));
    }
}

/// The squares and pieces of the castling move that ends with the king on `to`.
fn castle_squares_of(to: usize) -> (r: (usize, usize, usize, u8, u8, u8))
    requires
        is_castle_square(to as int),
    ensures
        (r.0 as int, r.1 as int, r.2 as int, r.3, r.4, r.5) == castle_squares(to as int),
{
    if to == def::CAS_SQUARE_WK {
        (4, 7, 5, def::WK, def::WR, 0b0111)
    } else if to == def::CAS_SQUARE_BK {
        (60, 63, 61, def::BK, def::BR, 0b1101)
    } else if to == def::CAS_SQUARE_WQ {
        (4, 0, 3, def::WK, def::WR, 0b1011)
    } else {
        (60, 56, 59, def::BK, def::BR, 0b1110)
    }
}

impl<'state> State<'state> {
    fn do_promo_mov(&mut self, from: usize, to: usize, promo: u8)
        requires
            old(self).wf(),
            from < 64,
            to < 64,
            (promo as int) < def::PIECE_CODE_RANGE,
            old(self).squares[to as int] == 0 ==> old(self).non_cap_mov_count < u16::MAX,
        ensures
            final(self)@ == promo_mov_model(old(self)@, old(self).zob_keys@, from as int, to as int, promo),
            final(self).zob_keys == old(self).zob_keys,
            final(self).bitmask == old(self).bitmask,
    {
        let moving_piece = self.squares[from];
        let taken_piece = self.squares[to];
        proof {
            def::lemma_square_code_range(self.squares[from as int]);
            def::lemma_square_code_range(self.squares[to as int]);
        }

        self.hash_key = self.hash_key ^ self.zob_key(from, moving_piece);
        self.hash_key = self.hash_key ^ self.zob_key(to, promo);

        let from_mask = self.bitmask.index_masks[from];
        let to_mask = self.bitmask.index_masks[to];
        self.bitboard.toggle(moving_piece, from_mask);
        self.bitboard.toggle(promo, to_mask);

        if taken_piece != 0 {
            self.hash_key = self.hash_key ^ self.zob_key(to, taken_piece);
            self.bitboard.toggle(taken_piece, to_mask);
        }

        self.taken_piece_stack.push(taken_piece);
        self.squares[to] = promo;
        self.squares[from] = 0;

        if taken_piece == 0 {
            self.non_cap_mov_count = self.non_cap_mov_count + 1;
        } else {
            self.non_cap_mov_count = 0;
        }
        assert(self@ =~~= promo_mov_model(old(self)@, old(self).zob_keys@, from as int, to as int, promo));
    }

    fn do_cas_mov(&mut self, to: usize)
        requires
            old(self).wf(),
        ensures
            final(self)@ == cas_mov_model(old(self)@, old(self).zob_keys@, to as int),
            final(self).zob_keys == old(self).zob_keys,
            final(self).bitmask == old(self).bitmask,
    {
        self.non_cap_mov_count = 0;

        if to == def::CAS_SQUARE_WK || to == def::CAS_SQUARE_BK || to == def::CAS_SQUARE_WQ || to == def::CAS_SQUARE_BQ {
            let (k_index, r_index, r_to_index, king, rook, keep) = castle_squares_of(to);
            self.cas_rights = self.cas_rights & keep;
            self.cas_history = self.cas_history | (15u8 ^ keep);
            if king == def::WK {
                self.wk_index = to;
            } else {
                self.bk_index = to;
            }

            self.squares[k_index] = 0;
            self.squares[r_index] = 0;
            self.squares[r_to_index] = rook;
            self.squares[to] = king;

            self.hash_key = self.hash_key ^ self.zob_key(k_index, king);
            self.hash_key = self.hash_key ^ self.zob_key(r_index, rook);
            self.hash_key = self.hash_key ^ self.zob_key(to, king);
            self.hash_key = self.hash_key ^ self.zob_key(r_to_index, rook);

            let k_mask = self.bitmask.index_masks[k_index];
            let r_mask = self.bitmask.index_masks[r_index];
            let to_mask = self.bitmask.index_masks[to];
            let r_to_mask = self.bitmask.index_masks[r_to_index];
            self.bitboard.toggle(king, k_mask);
            self.bitboard.toggle(rook, r_mask);
            self.bitboard.toggle(king, to_mask);
            self.bitboard.toggle(rook, r_to_mask);
        }
        assert(self@ =~~= cas_mov_model(old(self)@, old(self).zob_keys@, to as int));
    }

    fn do_enp_mov(&mut self, from: usize, to: usize)
        requires
            old(self).wf(),
            from < 64,
            to < 64,
            0 <= enp_taken_index(old(self).player, to as int) < 64,
        ensures
            final(self)@ == enp_mov_model(old(self)@, old(self).zob_keys@, from as int, to as int),
            final(self).zob_keys == old(self).zob_keys,
            final(self).bitmask == old(self).bitmask,
    {
        let taken_index = if self.player == def::PLAYER_W {
            to - 8
        } else {
            to + 8
        };

        self.non_cap_mov_count = 0;

        let moving_piece = self.squares[from];
        let taken_piece = self.squares[taken_index];
        proof {
            def::lemma_square_code_range(self.squares[from as int]);
            def::lemma_square_code_range(self.squares[taken_index as int]);
        }

        self.hash_key = self.hash_key ^ self.zob_key(from, moving_piece);
        self.hash_key = self.hash_key ^ self.zob_key(to, moving_piece);
        self.hash_key = self.hash_key ^ self.zob_key(taken_index, taken_piece);

        let from_mask = self.bitmask.index_masks[from];
        let to_mask = self.bitmask.index_masks[to];
        let taken_mask = self.bitmask.index_masks[taken_index];
        self.bitboard.toggle(moving_piece, from_mask);
        self.bitboard.toggle(moving_piece, to_mask);
        self.bitboard.toggle(taken_piece, taken_mask);

        self.taken_piece_stack.push(taken_piece);
        self.squares[to] = moving_piece;
        self.squares[from] = 0;
        self.squares[taken_index] = 0;
        assert(self@ =~~= enp_mov_model(old(self)@, old(self).zob_keys@, from as int, to as int));
    }

    fn do_cr_enp_mov(&mut self, from: usize, to: usize)
        requires
            old(self).wf(),
            from < 64,
            to < 64,
            0 <= enp_taken_index(old(self).player, to as int) < 64,
            old(self).non_cap_mov_count < u16::MAX,
        ensures
            final(self)@ == cr_enp_mov_model(old(self)@, old(self).zob_keys@, from as int, to as int),
            final(self).zob_keys == old(self).zob_keys,
            final(self).bitmask == old(self).bitmask,
    {
        self.enp_square = if self.player == def::PLAYER_W {
            to - 8
        } else {
            to + 8
        };

        self.non_cap_mov_count = self.non_cap_mov_count + 1;

        let moving_piece = self.squares[from];
        proof {
            def::lemma_square_code_range(self.squares[from as int]);
        }

        self.hash_key = self.hash_key ^ self.zob_key(from, moving_piece);
        self.hash_key = self.hash_key ^ self.zob_key(to, moving_piece);

        let from_mask = self.bitmask.index_masks[from];
        let to_mask = self.bitmask.index_masks[to];
        self.bitboard.toggle(moving_piece, from_mask);
        self.bitboard.toggle(moving_piece, to_mask);

        self.squares[to] = moving_piece;
        self.squares[from] = 0;
        assert(self@ =~~= cr_enp_mov_model(old(self)@, old(self).zob_keys@, from as int, to as int));
    }

    /// Plays a move of the given kind: `MOV_REG`, `MOV_PROMO` (to `promo`), `MOV_CAS`
    /// (the king's target square is `to`), `MOV_ENP` or `MOV_CR_ENP`.
    pub fn do_mov(&mut self, from: usize, to: usize, mov_type: u8, promo: u8)
        requires
            old(self).wf(),
            can_do_mov(old(self)@, from as int, to as int, mov_type, promo),
        ensures
            final(self)@ == do_mov_model(old(self)@, old(self).zob_keys@, from as int, to as int, mov_type, promo),
            final(self).zob_keys == old(self).zob_keys,
            final(self).bitmask == old(self).bitmask,
    {
        let ghost m0 = self@;
        self.cas_rights_stack.push(self.cas_rights);
        self.cas_history_stack.push(self.cas_history);
        self.enp_sqr_stack.push(self.enp_square);
        self.history_mov_stack.push((self.player, from, to));
        self.history_pos_stack.push(self.hash_key);
        self.non_cap_mov_count_stack.push(self.non_cap_mov_count);
        self.wk_index_stack.push(self.wk_index);
        self.bk_index_stack.push(self.bk_index);
        self.bitboard_stack.push(self.bitboard);
        self.enp_square = 0;

        let ghost pushed = self@;
        assert(pushed =~~= StateModel {
            cas_rights_stack: m0.cas_rights_stack.push(m0.cas_rights),
            cas_history_stack: m0.cas_history_stack.push(m0.cas_history),
            enp_sqr_stack: m0.enp_sqr_stack.push(m0.enp_square),
            history_mov_stack: m0.history_mov_stack.push((m0.player, from, to)),
            history_pos_stack: m0.history_pos_stack.push(m0.hash_key),
            non_cap_mov_count_stack: m0.non_cap_mov_count_stack.push(m0.non_cap_mov_count),
            wk_index_stack: m0.wk_index_stack.push(m0.wk_index),
            bk_index_stack: m0.bk_index_stack.push(m0.bk_index),
            bitboard_stack: m0.bitboard_stack.push(m0.bitboard),
            enp_square: 0,
            ..m0
        });

        if mov_type == def::MOV_REG {
            self.do_reg_mov(from, to);
        } else if mov_type == def::MOV_PROMO {
            self.do_promo_mov(from, to, promo);
        } else if mov_type == def::MOV_CAS {
            self.do_cas_mov(to);
        } else if mov_type == def::MOV_ENP {
            self.do_enp_mov(from, to);
        } else {
            self.do_cr_enp_mov(from, to);
        }

        self.player = def::get_opposite_player(self.player);
        assert(self@ =~~= do_mov_model(m0, old(self).zob_keys@, from as int, to as int, mov_type, promo));
    }
}

impl<'state> State<'state> {
    /// Takes back a move of the given kind, restoring what `do_mov` pushed.
    pub fn undo_mov(&mut self, from: usize, to: usize, mov_type: u8)
        requires
            can_undo_mov(old(self)@, from as int, to as int, mov_type),
        ensures
            final(self)@ == undo_mov_model(old(self)@, from as int, to as int, mov_type),
            final(self).zob_keys == old(self).zob_keys,
            final(self).bitmask == old(self).bitmask,
    {
        self.cas_rights = self.cas_rights_stack.pop().unwrap();
        self.cas_history = self.cas_history_stack.pop().unwrap();
        self.enp_square = self.enp_sqr_stack.pop().unwrap();
        self.non_cap_mov_count = self.non_cap_mov_count_stack.pop().unwrap();
        self.wk_index = self.wk_index_stack.pop().unwrap();
        self.bk_index = self.bk_index_stack.pop().unwrap();
        self.hash_key = self.history_pos_stack.pop().unwrap();
        self.bitboard = self.bitboard_stack.pop().unwrap();
        self.history_mov_stack.pop();

        self.player = def::get_opposite_player(self.player);

        if mov_type == def::MOV_REG {
            self.undo_reg_mov(from, to);
        } else if mov_type == def::MOV_PROMO {
            self.undo_promo_mov(from, to);
        } else if mov_type == def::MOV_CAS {
            self.undo_cas_mov(to);
        } else if mov_type == def::MOV_ENP {
            self.undo_enp_mov(from, to);
        } else {
            self.undo_cr_enp_mov(from, to);
        }
        assert(self@ =~~= undo_mov_model(old(self)@, from as int, to as int, mov_type));
    }

    /// Puts the moving piece back on `from` and the piece it took on `to`.
    fn undo_reg_mov(&mut self, from: usize, to: usize)
        requires
            from < 64,
            to < 64,
            old(self).taken_piece_stack@.len() > 0,
        ensures
            final(self)@ == (StateModel {
                squares: old(self)@.squares.update(to as int, old(self)@.taken_piece_stack.last())
                    .update(from as int, old(self)@.squares[to as int]),
                taken_piece_stack: old(self)@.taken_piece_stack.drop_last(),
                ..old(self)@
            }),
            final(self).zob_keys == old(self).zob_keys,
            final(self).bitmask == old(self).bitmask,
    {
        let moving_piece = self.squares[to];
        let taken_piece = self.taken_piece_stack.pop().unwrap();

        self.squares[to] = taken_piece;
        self.squares[from] = moving_piece;
        assert(self@ =~~= (StateModel {
            squares: old(self)@.squares.update(to as int, old(self)@.taken_piece_stack.last())
                .update(from as int, old(self)@.squares[to as int]),
            taken_piece_stack: old(self)@.taken_piece_stack.drop_last(),
            ..old(self)@
        }));
    }

    /// Puts a pawn of the side to move back on `from` and the piece it took on `to`.
    fn undo_promo_mov(&mut self, from: usize, to: usize)
        requires
            from < 64,
            to < 64,
            old(self).taken_piece_stack@.len() > 0,
        ensures
            final(self)@ == (StateModel {
                squares: old(self)@.squares.update(to as int, old(self)@.taken_piece_stack.last())
                    .update(from as int, if old(self).player == def::PLAYER_W { def::WP } else { def::BP }),
                taken_piece_stack: old(self)@.taken_piece_stack.drop_last(),
                ..old(self)@
            }),
            final(self).zob_keys == old(self).zob_keys,
            final(self).bitmask == old(self).bitmask,
    {
        let moving_piece = if self.player == def::PLAYER_W {
            def::WP
        } else {
            def::BP
        };
        let taken_piece = self.taken_piece_stack.pop().unwrap();

        self.squares[to] = taken_piece;
        self.squares[from] = moving_piece;
        assert(self@ =~~= (StateModel {
            squares: old(self)@.squares.update(to as int, old(self)@.taken_piece_stack.last())
                .update(from as int, if old(self).player == def::PLAYER_W { def::WP } else { def::BP }),
            taken_piece_stack: old(self)@.taken_piece_stack.drop_last(),
            ..old(self)@
        }));
    }

    /// Puts a castled king and rook back on their squares; nothing changes when `to` is
    /// not a castling square.
    fn undo_cas_mov(&mut self, to: usize)
        requires
            to < 64,
        ensures
            final(self)@ == (if is_castle_square(to as int) {
                let (k, r, rt, kp, rp, keep) = castle_squares(to as int);
                StateModel { squares: old(self)@.squares.update(k, kp).update(r, rp).update(rt, 0).update(to as int, 0), ..old(self)@ }
            } else {
                old(self)@
            }),
            final(self).zob_keys == old(self).zob_keys,
            final(self).bitmask == old(self).bitmask,
    {
        if to == def::CAS_SQUARE_WK || to == def::CAS_SQUARE_BK || to == def::CAS_SQUARE_WQ || to == def::CAS_SQUARE_BQ {
            let (k_index, r_index, r_to_index, king, rook, _keep) = castle_squares_of(to);
            self.squares[k_index] = king;
            self.squares[r_index] = rook;
            self.squares[r_to_index] = 0;
            self.squares[to] = 0;
            assert(self@ =~~= ({
                let (k, r, rt, kp, rp, keep) = castle_squares(to as int);
                StateModel { squares: old(self)@.squares.update(k, kp).update(r, rp).update(rt, 0).update(to as int, 0), ..old(self)@ }
            }));
        }
    }

    /// Puts the capturing pawn back on `from` and the pawn it took beside `to`.
    fn undo_enp_mov(&mut self, from: usize, to: usize)
        requires
            from < 64,
            to < 64,
            0 <= enp_taken_index(old(self).player, to as int) < 64,
            old(self).taken_piece_stack@.len() > 0,
        ensures
            final(self)@ == (StateModel {
                squares: old(self)@.squares.update(enp_taken_index(old(self).player, to as int), old(self)@.taken_piece_stack.last())
                    .update(from as int, old(self)@.squares[to as int]).update(to as int, 0),
                taken_piece_stack: old(self)@.taken_piece_stack.drop_last(),
                ..old(self)@
            }),
            final(self).zob_keys == old(self).zob_keys,
            final(self).bitmask == old(self).bitmask,
    {
        let taken_index = if self.player == def::PLAYER_W {
            to - 8
        } else {
            to + 8
        };
        let moving_piece = self.squares[to];
        let taken_piece = self.taken_piece_stack.pop().unwrap();

        self.squares[taken_index] = taken_piece;
        self.squares[from] = moving_piece;
        self.squares[to] = 0;
        assert(self@ =~~= (StateModel {
            squares: old(self)@.squares.update(enp_taken_index(old(self).player, to as int), old(self)@.taken_piece_stack.last())
                .update(from as int, old(self)@.squares[to as int]).update(to as int, 0),
            taken_piece_stack: old(self)@.taken_piece_stack.drop_last(),
            ..old(self)@
        }));
    }

    /// Puts a pawn that made a double step back on `from`.
    fn undo_cr_enp_mov(&mut self, from: usize, to: usize)
        requires
            from < 64,
            to < 64,
        ensures
            final(self)@ == (StateModel {
                squares: old(self)@.squares.update(from as int, old(self)@.squares[to as int]).update(to as int, 0),
                ..old(self)@
            }),
            final(self).zob_keys == old(self).zob_keys,
            final(self).bitmask == old(self).bitmask,
    {
        let moving_piece = self.squares[to];
        self.squares[from] = moving_piece;
        self.squares[to] = 0;
        assert(self@ =~~= (StateModel {
            squares: old(self)@.squares.update(from as int, old(self)@.squares[to as int]).update(to as int, 0),
            ..old(self)@
        }));
    }
}

/// The moves after which taking back puts every square back: origin and target differ,
/// a promoting pawn stands on its origin, the target of a pawn's double step or en-passant
/// capture is empty, and a castling king and rook stand on their squares with the
/// squares they land on empty.
pub open spec fn can_restore(m: StateModel, from: int, to: int, mov_type: u8) -> bool {
    &&& from != to
    &&& mov_type == def::MOV_PROMO ==> m.squares[from] == (if m.player == def::PLAYER_W { def::WP } else { def::BP })
    &&& mov_type == def::MOV_CAS && is_castle_square(to) ==> {
            let (k, r, rt, kp, rp, keep) = castle_squares(to);
            m.squares[k] == kp && m.squares[r] == rp && m.squares[rt] == 0 && m.squares[to] == 0
        }
    &&& mov_type == def::MOV_ENP ==> m.squares[to] == 0 && from != enp_taken_index(m.player, to)
    &&& mov_type == def::MOV_CR_ENP ==> m.squares[to] == 0
}

/// Taking back a move restores the position it was played from, stacks included.
pub proof fn lemma_undo_mov_restores(m: StateModel, keys: Seq<Vec<u64>>, from: int, to: int, mov_type: u8, promo: u8)
    requires
        m.squares.len() == 64,
        def::is_player(m.player),
        can_do_mov(m, from, to, mov_type, promo),
        can_restore(m, from, to, mov_type),
    ensures
        can_undo_mov(do_mov_model(m, keys, from, to, mov_type, promo), from, to, mov_type),
        undo_mov_model(do_mov_model(m, keys, from, to, mov_type, promo), from, to, mov_type) == m,
{
    let d = do_mov_model(m, keys, from, to, mov_type, promo);
    let u = undo_mov_model(d, from, to, mov_type);
    assert(def::opposite(d.player) == m.player);
    if mov_type == def::MOV_CAS && is_castle_square(to) {
        assert(u.squares =~= m.squares);
    } else {
        assert(u.squares =~= m.squares);
    }
    assert(u =~~= m);
}

/// The key that a code on a square contributes: nothing for an empty square.
pub open spec fn zc(keys: Seq<Vec<u64>>, index: int, piece: u8) -> u64 {
    if piece == 0 { 0 } else { zk(keys, index, piece) }
}

/// Changing one square changes the key by the contribution of the old code and of the new one.
pub proof fn lemma_zob_hash_update(squares: Seq<u8>, keys: Seq<Vec<u64>>, k: int, v: u8, n: int)
    requires
        0 <= k < squares.len(),
        n <= squares.len(),
    ensures
        zob_hash_upto(squares.update(k, v), keys, n) == if 0 <= k < n {
            zob_hash_upto(squares, keys, n) ^ zc(keys, k, squares[k]) ^ zc(keys, k, v)
        } else {
            zob_hash_upto(squares, keys, n)
        },
    decreases n,
{
    if n > 0 {
        lemma_zob_hash_update(squares, keys, k, v, n - 1);
        let ns = squares.update(k, v);
        let a = zob_hash_upto(squares, keys, n - 1);
        let x = zc(keys, k, squares[k]);
        let y = zc(keys, k, v);
        let c = zc(keys, n - 1, squares[n - 1]);
        assert(zob_hash_upto(squares, keys, n) == a ^ c) by {
            assert(a ^ 0u64 == a) by (bit_vector);
        }
        if k == n - 1 {
            assert(zob_hash_upto(ns, keys, n) == a ^ y) by {
                assert(a ^ 0u64 == a) by (bit_vector);
            }
            assert(a ^ y == (a ^ x) ^ x ^ y) by (bit_vector);
        } else if k < n - 1 {
            assert(zob_hash_upto(ns, keys, n) == (a ^ x ^ y) ^ c) by {
                assert((a ^ x ^ y) ^ 0u64 == a ^ x ^ y) by (bit_vector);
            }
            assert((a ^ x ^ y) ^ c == (a ^ c) ^ x ^ y) by (bit_vector);
        } else {
            assert(zob_hash_upto(ns, keys, n) == a ^ c) by {
                assert(a ^ 0u64 == a) by (bit_vector);
            }
        }
    }
}

/// The key and the boards agree with the squares, and the squares hold piece codes.
pub open spec fn board_consistent(m: StateModel, keys: Seq<Vec<u64>>) -> bool {
    &&& m.squares.len() == 64
    &&& forall|i: int| 0 <= i < 64 ==> #[trigger] def::is_square_code(m.squares[i])
    &&& m.hash_key == zob_hash(m.squares, keys)
    &&& matches_squares(m.bitboard, m.squares)
}

/// Putting a piece on an empty square, or taking it off its square, changes the key by
/// the piece's key and flips the piece's bits.
proof fn lemma_place_or_lift(sq: Seq<u8>, keys: Seq<Vec<u64>>, h: u64, bb: BitBoard, k: int, p: u8)
    requires
        sq.len() == 64,
        h == zob_hash(sq, keys),
        matches_squares(bb, sq),
        0 <= k < 64,
        def::is_piece(p),
        sq[k] == 0 || sq[k] == p,
    ensures
        h ^ zk(keys, k, p) == zob_hash(sq.update(k, if sq[k] == 0 { p } else { 0u8 }), keys),
        matches_squares(toggled(bb, p, single(k)), sq.update(k, if sq[k] == 0 { p } else { 0u8 })),
{
    lemma_zob_hash_update(sq, keys, k, if sq[k] == 0 { p } else { 0u8 }, 64);
    lemma_toggle_matches(bb, sq, k, p);
    let z = zk(keys, k, p);
    assert(h ^ 0u64 ^ z == h ^ z) by (bit_vector);
    assert(h ^ z ^ 0u64 == h ^ z) by (bit_vector);
}

/// Flipping bits of two pieces may be done in either order.
proof fn lemma_toggle_commutes(bb: BitBoard, p: u8, x: u64, q: u8, y: u64)
    ensures
        toggled(toggled(bb, p, x), q, y) == toggled(toggled(bb, q, y), p, x),
{
    assert forall|a: u64, b: u64, c: u64| #[trigger] ((a ^ b) ^ c) == (a ^ c) ^ b by {
        assert((a ^ b) ^ c == (a ^ c) ^ b) by (bit_vector);
    }
}

/// The moves that keep the key and the boards in step with the squares: a piece moves
/// from its origin to a different square, a promotion makes a piece, a castling king and
/// rook stand on their squares with their landing squares empty, and a pawn's double
/// step or en-passant capture lands on an empty square (taking the pawn beside it).
pub open spec fn keeps_board(m: StateModel, from: int, to: int, mov_type: u8, promo: u8) -> bool {
    &&& from != to
    &&& mov_type != def::MOV_CAS ==> def::is_piece(m.squares[from])
    &&& mov_type == def::MOV_PROMO ==> def::is_piece(promo)
    &&& mov_type == def::MOV_CAS && is_castle_square(to) ==> {
            let (k, r, rt, kp, rp, keep) = castle_squares(to);
            m.squares[k] == kp && m.squares[r] == rp && m.squares[rt] == 0 && m.squares[to] == 0
        }
    &&& mov_type == def::MOV_ENP ==> {
            let ti = enp_taken_index(m.player, to);
            m.squares[to] == 0 && from != ti && def::is_piece(m.squares[ti])
        }
    &&& mov_type == def::MOV_CR_ENP ==> m.squares[to] == 0
}

/// Every such move keeps the Zobrist key equal to the key of the squares and the
/// bitboards equal to the boards of the squares.
pub proof fn lemma_do_mov_keeps_board(m: StateModel, keys: Seq<Vec<u64>>, from: int, to: int, mov_type: u8, promo: u8)
    requires
        board_consistent(m, keys),
        can_do_mov(m, from, to, mov_type, promo),
        keeps_board(m, from, to, mov_type, promo),
    ensures
        board_consistent(do_mov_model(m, keys, from, to, mov_type, promo), keys),
{
    let d = do_mov_model(m, keys, from, to, mov_type, promo);
    let sq = m.squares;
    let h = m.hash_key;
    let bb = m.bitboard;
    if mov_type == def::MOV_REG || mov_type == def::MOV_PROMO {
        let mv = sq[from];
        let tk = sq[to];
        let np = if mov_type == def::MOV_REG { mv } else { promo };
        // the captured piece leaves first
        let sq1 = if tk == 0 { sq } else { sq.update(to, 0u8) };
        let h1 = if tk == 0 { h } else { h ^ zk(keys, to, tk) };
        let bb1 = if tk == 0 { bb } else { toggled(bb, tk, single(to)) };
        if tk != 0 {
            assert(def::is_square_code(sq[to]));
            lemma_place_or_lift(sq, keys, h, bb, to, tk);
        }
        lemma_place_or_lift(sq1, keys, h1, bb1, from, mv);
        let sq2 = sq1.update(from, 0u8);
        let h2 = h1 ^ zk(keys, from, mv);
        let bb2 = toggled(bb1, mv, single(from));
        lemma_place_or_lift(sq2, keys, h2, bb2, to, np);
        let sq3 = sq2.update(to, np);
        assert(sq3 =~= sq.update(to, np).update(from, 0u8));
        let a = zk(keys, from, mv);
        let b = zk(keys, to, np);
        let c = zk(keys, to, tk);
        if tk == 0 {
            assert(d.hash_key == h ^ a ^ b);
        } else {
            assert((h ^ c) ^ a ^ b == h ^ a ^ b ^ c) by (bit_vector);
            lemma_toggle_commutes(bb, tk, single(to), mv, single(from));
            lemma_toggle_commutes(toggled(bb, mv, single(from)), tk, single(to), np, single(to));
        }
    } else if mov_type == def::MOV_CAS {
        if is_castle_square(to) {
            let (k, r, rt, kp, rp, keep) = castle_squares(to);
            lemma_place_or_lift(sq, keys, h, bb, k, kp);
            let sq1 = sq.update(k, 0u8);
            let h1 = h ^ zk(keys, k, kp);
            let bb1 = toggled(bb, kp, single(k));
            lemma_place_or_lift(sq1, keys, h1, bb1, r, rp);
            let sq2 = sq1.update(r, 0u8);
            let h2 = h1 ^ zk(keys, r, rp);
            let bb2 = toggled(bb1, rp, single(r));
            lemma_place_or_lift(sq2, keys, h2, bb2, to, kp);
            let sq3 = sq2.update(to, kp);
            let h3 = h2 ^ zk(keys, to, kp);
            let bb3 = toggled(bb2, kp, single(to));
            lemma_place_or_lift(sq3, keys, h3, bb3, rt, rp);
            assert(sq3.update(rt, rp) =~= sq.update(k, 0u8).update(r, 0u8).update(rt, rp).update(to, kp));
        }
    } else if mov_type == def::MOV_ENP {
        let ti = enp_taken_index(m.player, to);
        let mv = sq[from];
        let tk = sq[ti];
        lemma_place_or_lift(sq, keys, h, bb, from, mv);
        let sq1 = sq.update(from, 0u8);
        let h1 = h ^ zk(keys, from, mv);
        let bb1 = toggled(bb, mv, single(from));
        lemma_place_or_lift(sq1, keys, h1, bb1, to, mv);
        let sq2 = sq1.update(to, mv);
        let h2 = h1 ^ zk(keys, to, mv);
        let bb2 = toggled(bb1, mv, single(to));
        lemma_place_or_lift(sq2, keys, h2, bb2, ti, tk);
        assert(sq2.update(ti, 0u8) =~= sq.update(to, mv).update(from, 0u8).update(ti, 0u8));
    } else {
        let mv = sq[from];
        lemma_place_or_lift(sq, keys, h, bb, from, mv);
        let sq1 = sq.update(from, 0u8);
        let h1 = h ^ zk(keys, from, mv);
        let bb1 = toggled(bb, mv, single(from));
        lemma_place_or_lift(sq1, keys, h1, bb1, to, mv);
        assert(sq1.update(to, mv) =~= sq.update(to, mv).update(from, 0u8));
    }
}

proof fn lemma_zob_hash_zero(squares: Seq<u8>, keys: Seq<Vec<u64>>, n: int)
    requires
        0 <= n <= squares.len(),
        forall|i: int| 0 <= i < squares.len() ==> squares[i] == 0,
    ensures
        zob_hash_upto(squares, keys, n) == 0,
    decreases n,
{
    if n > 0 {
        lemma_zob_hash_zero(squares, keys, n - 1);
    }
}

proof fn lemma_empty_board_matches(bb: BitBoard, squares: Seq<u8>)
    requires
        bb.is_empty(),
        squares.len() == 64,
        forall|i: int| 0 <= i < 64 ==> squares[i] == 0,
    ensures
        matches_squares(bb, squares),
{
    assert forall|j: int| 0 <= j < 64 implies !#[trigger] has_bit(0u64, j) by {
        lemma_zero_bit(j);
    }
}

/// `idx` is the square of `king` when there is one on the board, 0 otherwise.
pub open spec fn king_index_ok(squares: Seq<u8>, king: u8, idx: usize) -> bool {
    &&& (exists|j: int| 0 <= j < 64 && squares[j] == king) ==> (idx < 64 && squares[idx as int] == king)
    &&& (forall|j: int| 0 <= j < 64 ==> squares[j] != king) ==> idx == 0
}

fn get_board_info_from_fen(placement: &Vec<char>, zob_keys: &Vec<Vec<u64>>, bitmask: &BitMask)
    -> (r: ([u8; 64], u64, usize, usize, BitBoard))
    requires
        placement_ok(placement@),
        keys_ok(zob_keys@),
        index_masks_ok(bitmask.index_masks),
    ensures
        r.0@ == placement_squares(placement@),
        r.1 == zob_hash(r.0@, zob_keys@),
        king_index_ok(r.0@, def::WK, r.2),
        king_index_ok(r.0@, def::BK, r.3),
        matches_squares(r.4, r.0@),
{
    let ranks = split_chars(placement, '/');
    let mut rows: Vec<Vec<u8>> = Vec::new();
    let mut k: usize = 0;
    while k < 8
        invariant
            k <= 8,
            placement_ok(placement@),
            seqs_of(ranks@) == split(placement@, '/'),
            rows@.len() == k,
            forall|j: int| 0 <= j < k ==> #[trigger] rows@[j]@ == expand_rank(split(placement@, '/')[j]),
        decreases 8 - k,
    {
        assert(seqs_of(ranks@)[k as int] == ranks@[k as int]@);
        assert(crate::fen::rank_ok(split(placement@, '/')[k as int]));
        let row = expand_rank_chars(&ranks[k]);
        rows.push(row);
        k = k + 1;
    }

    let ghost target = placement_squares(placement@);
    let mut squares: [u8; 64] = [0; 64];
    let mut hash_key: u64 = 0;
    let mut wk_index: usize = 0;
    let mut bk_index: usize = 0;
    let mut bitboard = BitBoard::new();
    proof {
        lemma_zob_hash_zero(squares@, zob_keys@, 64);
        lemma_empty_board_matches(bitboard, squares@);
    }

    let mut index: usize = 0;
    while index < 64
        invariant
            index <= 64,
            keys_ok(zob_keys@),
            index_masks_ok(bitmask.index_masks),
            placement_ok(placement@),
            target == placement_squares(placement@),
            rows@.len() == 8,
            forall|j: int| 0 <= j < 8 ==> #[trigger] rows@[j]@ == expand_rank(split(placement@, '/')[j]),
            forall|j: int| 0 <= j < 64 ==> #[trigger] squares@[j] == (if j < index { target[j] } else { 0u8 }),
            hash_key == zob_hash(squares@, zob_keys@),
            matches_squares(bitboard, squares@),
            (exists|j: int| 0 <= j < index && target[j] == def::WK) ==> (wk_index < index && target[wk_index as int] == def::WK),
            (forall|j: int| 0 <= j < index ==> target[j] != def::WK) ==> wk_index == 0,
            (exists|j: int| 0 <= j < index && target[j] == def::BK) ==> (bk_index < index && target[bk_index as int] == def::BK),
            (forall|j: int| 0 <= j < index ==> target[j] != def::BK) ==> bk_index == 0,
        decreases 64 - index,
    {
        let row = 7 - index / 8;
        let file = index % 8;
        assert(crate::fen::rank_ok(split(placement@, '/')[row as int]));
        let piece = rows[row][file];
        assert(piece == target[index as int]);
        proof {
            let r = split(placement@, '/')[row as int];
            crate::fen::lemma_expand_rank_codes(r);
            assert(def::is_square_code(piece));
        }
        if piece != 0 {
            let ghost sq0 = squares@;
            proof {
                def::lemma_square_code_range(piece);
                lemma_place_or_lift(sq0, zob_keys@, hash_key, bitboard, index as int, piece);
            }
            squares[index] = piece;
            hash_key = hash_key ^ zob_keys[index][piece as usize];
            let mask = bitmask.index_masks[index];
            bitboard.toggle(piece, mask);
            assert(squares@ =~= sq0.update(index as int, piece));
            if piece == def::WK {
                wk_index = index;
            } else if piece == def::BK {
                bk_index = index;
            }
        }
        proof {
            assert forall|j: int| 0 <= j < 64 implies #[trigger] squares@[j] == (if j < index + 1 { target[j] } else { 0u8 }) by {
            }
            if exists|j: int| 0 <= j < index + 1 && target[j] == def::WK {
                if target[index as int] != def::WK {
                    let w = choose|j: int| 0 <= j < index + 1 && target[j] == def::WK;
                    assert(0 <= w < index);
                }
            }
            if exists|j: int| 0 <= j < index + 1 && target[j] == def::BK {
                if target[index as int] != def::BK {
                    let w = choose|j: int| 0 <= j < index + 1 && target[j] == def::BK;
                    assert(0 <= w < index);
                }
            }
        }
        index = index + 1;
    }
    assert(squares@ =~= target);
    (squares, hash_key, wk_index, bk_index, bitboard)
}

fn get_player_from_fen(s: &Vec<char>) -> (r: u8)
    requires
        s@ == seq!['w'] || s@ == seq!['b'],
    ensures
        r == (if s@ == seq!['w'] { def::PLAYER_W } else { def::PLAYER_B }),
{
    if s.len() == 1 && s[0] == 'w' {
        assert(s@ =~= seq!['w']);
        def::PLAYER_W
    } else {
        assert(s@ != seq!['w']) by {
            if s@ == seq!['w'] {
                assert(s@[0] == 'w');
            }
        }
        def::PLAYER_B
    }
}

fn contains_char(s: &Vec<char>, c: char) -> (r: bool)
    ensures
        r == s@.contains(c),
{
    let mut i: usize = 0;
    while i < s.len()
        invariant
            i <= s@.len(),
            forall|j: int| 0 <= j < i ==> s@[j] != c,
        decreases s@.len() - i,
    {
        if s[i] == c {
            return true;
        }
        i = i + 1;
    }
    false
}

fn get_cas_rights_from_fen(s: &Vec<char>) -> (r: u8)
    ensures
        r == cas_rights_of(s@),
{
    let mut cas_rights: u8 = 0;
    if contains_char(s, 'K') {
        cas_rights = cas_rights + 8;
    }
    if contains_char(s, 'Q') {
        cas_rights = cas_rights + 4;
    }
    if contains_char(s, 'k') {
        cas_rights = cas_rights + 2;
    }
    if contains_char(s, 'q') {
        cas_rights = cas_rights + 1;
    }
    cas_rights
}

fn get_enp_sqr_from_fen(s: &Vec<char>) -> (r: usize)
    requires
        s@ == seq!['-'] || crate::util::is_sqr_notation(s@),
    ensures
        r == (if s@ == seq!['-'] { 0 } else { crate::util::sqr_index(s@) as usize }),
{
    if s.len() == 1 && s[0] == '-' {
        assert(s@ =~= seq!['-']);
        return 0;
    }
    assert(s@ != seq!['-']) by {
        if s@ == seq!['-'] {
            assert(s@[0] == '-');
        }
    }
    crate::util::map_sqr_chars_to_index(s[0], s[1])
}

impl<'state> State<'state> {
    /// Reads a position from its text.
    pub fn new(fen_string: &str, zob_keys: &'state Vec<Vec<u64>>, bitmask: &'state BitMask) -> (r: Self)
        requires
            fen_ok(fen_string@),
            keys_ok(zob_keys@),
            index_masks_ok(bitmask.index_masks),
        ensures
            r.wf(),
            board_consistent(r@, zob_keys@),
            r.squares@ == fen_squares(fen_string@),
            r.player == fen_player(fen_string@),
            r.cas_rights == fen_cas_rights(fen_string@),
            r.enp_square == fen_enp_square(fen_string@),
            r.non_cap_mov_count == fen_non_cap_mov_count(fen_string@),
            king_index_ok(r.squares@, def::WK, r.wk_index),
            king_index_ok(r.squares@, def::BK, r.bk_index),
            r@.bitboard_stack.len() == 0,
            r@.taken_piece_stack.len() == 0,
            r@.enp_sqr_stack.len() == 0,
            r@.cas_rights_stack.len() == 0,
            r.cas_history == 0,
            r@.cas_history_stack.len() == 0,
            r@.history_mov_stack.len() == 0,
            r@.history_pos_stack.len() == 0,
            r@.non_cap_mov_count_stack.len() == 0,
            r@.wk_index_stack.len() == 0,
            r@.bk_index_stack.len() == 0,
            r.zob_keys == zob_keys,
            r.bitmask == bitmask,
    {
        let chars = str_to_chars(fen_string);
        let fields = split_chars(&chars, ' ');
        proof {
            assert(seqs_of(fields@) == fen_fields(fen_string@));
            assert(fields@[0]@ == fen_fields(fen_string@)[0]);
            assert(fields@[1]@ == fen_fields(fen_string@)[1]);
            assert(fields@[2]@ == fen_fields(fen_string@)[2]);
            assert(fields@[3]@ == fen_fields(fen_string@)[3]);
            assert(fields@[4]@ == fen_fields(fen_string@)[4]);
        }
        let (squares, hash_key, wk_index, bk_index, bitboard) = get_board_info_from_fen(&fields[0], zob_keys, bitmask);
        let player = get_player_from_fen(&fields[1]);
        let cas_rights = get_cas_rights_from_fen(&fields[2]);
        let enp_sqr = get_enp_sqr_from_fen(&fields[3]);
        let non_cap_mov_count = parse_decimal(&fields[4]) as u16;
        proof {
            assert forall|i: int| 0 <= i < 64 implies #[trigger] def::is_square_code(squares@[i]) by {
                crate::fen::lemma_placement_codes(fields@[0]@, i);
            }
        }

        State {
            squares: squares,
            player: player,
            cas_rights: cas_rights,
            enp_square: enp_sqr,
            non_cap_mov_count: non_cap_mov_count,
            hash_key: hash_key,

            wk_index: wk_index,
            bk_index: bk_index,

            bitboard: bitboard,
            bitboard_stack: Vec::new(),

            taken_piece_stack: Vec::new(),
            enp_sqr_stack: Vec::new(),
            cas_rights_stack: Vec::new(),
            cas_history: 0,
            cas_history_stack: Vec::new(),
            history_mov_stack: Vec::new(),
            history_pos_stack: Vec::new(),
            non_cap_mov_count_stack: Vec::new(),
            wk_index_stack: Vec::new(),
            bk_index_stack: Vec::new(),

            zob_keys: zob_keys,
            bitmask: bitmask,
        }
    }
}

/// Whether a text is a position that `State::new` reads.
pub fn is_valid_fen(fen_string: &str) -> (r: bool)
    ensures
        r == fen_ok(fen_string@),
{
    let chars = str_to_chars(fen_string);
    let fields = split_chars(&chars, ' ');
    proof {
        assert(seqs_of(fields@) == fen_fields(fen_string@));
    }
    if fields.len() < 5 {
        return false;
    }
    proof {
        assert(fields@[0]@ == fen_fields(fen_string@)[0]);
        assert(fields@[1]@ == fen_fields(fen_string@)[1]);
        assert(fields@[3]@ == fen_fields(fen_string@)[3]);
        assert(fields@[4]@ == fen_fields(fen_string@)[4]);
    }
    let ranks = split_chars(&fields[0], '/');
    assert(seqs_of(ranks@).len() == ranks@.len());
    if ranks.len() != 8 {
        return false;
    }
    let mut k: usize = 0;
    while k < 8
        invariant
            k <= 8,
            fields@.len() >= 5,
            seqs_of(fields@) == fen_fields(fen_string@),
            ranks@.len() == 8,
            seqs_of(ranks@) == split(fields@[0]@, '/'),
            forall|j: int| 0 <= j < k ==> #[trigger] crate::fen::rank_ok(split(fields@[0]@, '/')[j]),
        decreases 8 - k,
    {
        assert(seqs_of(ranks@)[k as int] == ranks@[k as int]@);
        if !check_rank(&ranks[k]) {
            assert(fields@[0]@ == fen_fields(fen_string@)[0]);
            assert(!crate::fen::rank_ok(split(fields@[0]@, '/')[k as int]));
            return false;
        }
        k = k + 1;
    }
    let player = &fields[1];
    let player_ok = player.len() == 1 && (player[0] == 'w' || player[0] == 'b');
    proof {
        if player_ok {
            assert(player@ =~= seq![player@[0]]);
        } else {
            if player@ == seq!['w'] || player@ == seq!['b'] {
                assert(player@.len() == 1);
            }
        }
    }
    if !player_ok {
        return false;
    }
    let enp = &fields[3];
    let enp_dash = enp.len() == 1 && enp[0] == '-';
    let enp_sqr = enp.len() >= 2 && 'a' <= enp[0] && enp[0] <= 'h' && '1' <= enp[1] && enp[1] <= '9';
    proof {
        if enp_dash {
            assert(enp@ =~= seq!['-']);
        } else if enp@ == seq!['-'] {
            assert(enp@.len() == 1);
        }
    }
    if !(enp_dash || enp_sqr) {
        return false;
    }
    check_decimal_upto(&fields[4], 65535)
}

/// How many of the last `n` positions of the history have the key `key`.
pub open spec fn count_repeats(pos: Seq<u64>, key: u64, n: int) -> nat
    decreases n,
{
    if n <= 0 {
        0
    } else {
        count_repeats(pos, key, n - 1) + (if pos[pos.len() - n] == key { 1nat } else { 0nat })
    }
}

/// A draw by repetition: among the positions since the last capture or pawn move (at
/// least six of them), the one four plies back is the current one, or the current one
/// occurred twice.
pub open spec fn is_draw_spec(m: StateModel) -> bool {
    let len = m.history_pos_stack.len() as int;
    let range = if len < m.non_cap_mov_count as int { len } else { m.non_cap_mov_count as int };
    &&& range >= MIN_POS_COUNT_FOR_REP
    &&& (m.history_pos_stack[len - LAST_DUP_POS_INDEX] == m.hash_key
        || count_repeats(m.history_pos_stack, m.hash_key, range) >= 2)
}

impl<'state> State<'state> {
    pub fn is_draw(&self) -> (r: bool)
        ensures
            r == is_draw_spec(self@),
    {
        let history_len = self.history_pos_stack.len();
        let ncm = self.non_cap_mov_count as usize;
        let check_range = if history_len < ncm { history_len } else { ncm };

        if check_range < MIN_POS_COUNT_FOR_REP {
            return false;
        }

        if self.history_pos_stack[history_len - LAST_DUP_POS_INDEX] == self.hash_key {
            return true;
        }

        let mut dup_count: usize = 0;
        let mut check_index: usize = 1;
        while check_index <= check_range
            invariant
                1 <= check_index <= check_range + 1,
                check_range <= history_len,
                check_range <= ncm,
                ncm == self.non_cap_mov_count as usize,
                check_range == (if history_len < ncm { history_len } else { ncm }),
                check_range >= MIN_POS_COUNT_FOR_REP,
                history_len == self.history_pos_stack@.len(),
                dup_count == count_repeats(self.history_pos_stack@, self.hash_key, check_index - 1),
                dup_count <= 1,
            decreases check_range + 1 - check_index,
        {
            if self.history_pos_stack[history_len - check_index] == self.hash_key {
                dup_count = dup_count + 1;
            }

            if dup_count > 1 {
                proof {
                    lemma_count_repeats_monotone(self.history_pos_stack@, self.hash_key, check_index as int, check_range as int);
                }
                return true;
            }
            check_index = check_index + 1;
        }

        false
    }
}

proof fn lemma_count_repeats_monotone(pos: Seq<u64>, key: u64, a: int, b: int)
    requires
        0 <= a <= b,
    ensures
        count_repeats(pos, key, a) <= count_repeats(pos, key, b),
    decreases b - a,
{
    if a < b {
        lemma_count_repeats_monotone(pos, key, a, b - 1);
    }
}


impl<'state> State<'state> {
    /// Whether the position is well formed: the key table and masks can be indexed, the
    /// squares hold piece codes and the side to move is a player.
    pub fn check_wf(&self) -> (r: bool)
        ensures
            r == self.wf(),
    {
        if self.zob_keys.len() < def::BOARD_SIZE {
            return false;
        }
        let mut i: usize = 0;
        while i < def::BOARD_SIZE
            invariant
                self.zob_keys@.len() >= def::BOARD_SIZE,
                i <= def::BOARD_SIZE,
                forall|k: int| 0 <= k < i ==> #[trigger] self.zob_keys@[k]@.len() >= def::PIECE_CODE_RANGE,
            decreases def::BOARD_SIZE - i,
        {
            if self.zob_keys[i].len() < def::PIECE_CODE_RANGE {
                return false;
            }
            i = i + 1;
        }
        let mut i: usize = 0;
        while i < 64
            invariant
                i <= 64,
                forall|k: int| 0 <= k < i ==> #[trigger] self.bitmask.index_masks[k] == single(k),
                forall|k: int| 0 <= k < i ==> #[trigger] def::is_square_code(self.squares[k]),
            decreases 64 - i,
        {
            if self.bitmask.index_masks[i] != 1u64 << i as u64 {
                return false;
            }
            let p = self.squares[i];
            if !(p == 0 || p == def::WP || p == def::WN || p == def::WB || p == def::WR || p == def::WQ || p == def::WK
                || p == def::BP || p == def::BN || p == def::BB || p == def::BR || p == def::BQ || p == def::BK) {
                assert(!def::is_square_code(p)) by {
                    assert(p == 4 * (p / 4) + p % 4);
                }
                assert(!def::is_square_code(self.squares[i as int]));
                return false;
            }
            i = i + 1;
        }
        self.player == def::PLAYER_W || self.player == def::PLAYER_B
    }

    /// Whether `do_mov` can play the move.
    pub fn can_play(&self, from: usize, to: usize, mov_type: u8, promo: u8) -> (r: bool)
        ensures
            r == can_do_mov(self@, from as int, to as int, mov_type, promo),
    {
        if from >= 64 || to >= 64 || mov_type < 1 || mov_type > 5 {
            return false;
        }
        if mov_type == def::MOV_PROMO && promo as usize >= def::PIECE_CODE_RANGE {
            return false;
        }
        if mov_type == def::MOV_REG && self.squares[to] == 0 && self.squares[from] / 4 != def::KIND_P
            && self.non_cap_mov_count == u16::MAX {
            return false;
        }
        if mov_type == def::MOV_CR_ENP && self.non_cap_mov_count == u16::MAX {
            return false;
        }
        if mov_type == def::MOV_PROMO && self.squares[to] == 0 && self.non_cap_mov_count == u16::MAX {
            return false;
        }
        if mov_type == def::MOV_ENP || mov_type == def::MOV_CR_ENP {
            if self.player == def::PLAYER_W {
                return to >= 8;
            } else {
                return to + 8 < 64;
            }
        }
        true
    }
}


/// The glyphs of one rank, files a to h.
pub open spec fn rank_text(squares: Seq<u8>, rank: int) -> Seq<char> {
    Seq::new(8, |f: int| crate::util::glyph_of(squares[rank * 8 + f]))
}

/// The board as text: one line of glyphs per rank, the eighth rank first.
pub open spec fn board_text_from(squares: Seq<u8>, rank: int) -> Seq<char>
    decreases rank + 1,
{
    if rank < 0 { Seq::empty() } else { rank_text(squares, rank).push('\n') + board_text_from(squares, rank - 1) }
}

impl<'state> State<'state> {
    /// The board as text, the eighth rank first, a glyph per square.
    pub fn to_board_string(&self) -> (r: String)
        ensures
            r@ == board_text_from(self.squares@, 7),
    {
        let mut out = String::new();
        let mut rank: usize = 8;
        assert(board_text_from(self.squares@, 7) =~= Seq::<char>::empty() + board_text_from(self.squares@, 7));
        while rank > 0
            invariant
                rank <= 8,
                out@ + board_text_from(self.squares@, rank - 1) == board_text_from(self.squares@, 7),
            decreases rank,
        {
            let r = rank - 1;
            let ghost before = out@;
            let mut file: usize = 0;
            while file < 8
                invariant
                    r < 8,
                    file <= 8,
                    out@ == before + rank_text(self.squares@, r as int).subrange(0, file as int),
                decreases 8 - file,
            {
                crate::util::append_glyph(&mut out, self.squares[r * 8 + file]);
                assert(rank_text(self.squares@, r as int).subrange(0, file + 1)
                    =~= rank_text(self.squares@, r as int).subrange(0, file as int).push(crate::util::glyph_of(self.squares@[r * 8 + file])));
                file = file + 1;
            }
            crate::util::append_newline(&mut out);
            assert(rank_text(self.squares@, r as int).subrange(0, 8) =~= rank_text(self.squares@, r as int));
            assert(out@ + board_text_from(self.squares@, r - 1) =~= before + board_text_from(self.squares@, r as int));
            rank = r;
        }
        assert(board_text_from(self.squares@, -1) =~= Seq::<char>::empty());
        assert(out@ + Seq::<char>::empty() =~= out@);
        out
    }
}


/// The position after passing the move: the en-passant square is saved and cleared and
/// the other side is to move; the squares, the key and the boards stay.
pub open spec fn null_mov_model(m: StateModel) -> StateModel {
    StateModel {
        enp_sqr_stack: m.enp_sqr_stack.push(m.enp_square),
        enp_square: 0,
        player: def::opposite(m.player),
        ..m
    }
}

/// The position after taking back a passed move: the saved en-passant square and the side
/// to move return.
pub open spec fn null_mov_undone(m: StateModel) -> StateModel {
    StateModel {
        enp_sqr_stack: m.enp_sqr_stack.drop_last(),
        enp_square: m.enp_sqr_stack.last(),
        player: def::opposite(m.player),
        ..m
    }
}

impl<'state> State<'state> {
    /// Passes the move to the other side (for null-move pruning).
    pub fn do_null_mov(&mut self)
        requires
            def::is_player(old(self).player),
        ensures
            final(self)@ == null_mov_model(old(self)@),
            final(self).zob_keys == old(self).zob_keys,
            final(self).bitmask == old(self).bitmask,
    {
        self.enp_sqr_stack.push(self.enp_square);
        self.enp_square = 0;
        self.player = def::get_opposite_player(self.player);
        assert(self@ =~~= null_mov_model(old(self)@));
    }

    /// Takes back a passed move: the saved en-passant square and the side to move return.
    pub fn undo_null_mov(&mut self)
        requires
            old(self).enp_sqr_stack.len() > 0,
            def::is_player(old(self).player),
        ensures
            final(self)@ == null_mov_undone(old(self)@),
            final(self).zob_keys == old(self).zob_keys,
            final(self).bitmask == old(self).bitmask,
    {
        self.enp_square = self.enp_sqr_stack.pop().unwrap();
        self.player = def::get_opposite_player(self.player);
    }
}

/// Passing the move and taking it back gives the position back.
pub proof fn lemma_null_mov_round_trip(m: StateModel)
    requires
        def::is_player(m.player),
    ensures
        null_mov_undone(null_mov_model(m)) == m,
{
    let n = null_mov_model(m);
    assert(n.enp_sqr_stack.drop_last() =~= m.enp_sqr_stack);
    assert(def::opposite(def::opposite(m.player)) == m.player);
    assert(null_mov_undone(n) =~~= m);
}

} // verus!
