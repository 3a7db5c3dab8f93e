//! One 64-bit board per side and per piece kind (kings are tracked by index).
use vstd::prelude::*;
use crate::def;
use crate::bits::{has_bit, lemma_xor_bit, lemma_single_bit, single};

verus! {

#[derive(Copy, Clone)]
pub struct BitBoard {
    pub w_all: u64,
    pub b_all: u64,

    pub w_pawn: u64,
    pub b_pawn: u64,

    pub w_knight: u64,
    pub b_knight: u64,

    pub w_bishop: u64,
    pub b_bishop: u64,

    pub w_rook: u64,
    pub b_rook: u64,

    pub w_queen: u64,
    pub b_queen: u64,
}

/// The board that holds a piece code: one of the ten kind boards, 0 for a king or anything else.
pub open spec fn kind_board(bb: BitBoard, piece: u8) -> u64 {
    if piece == def::WP { bb.w_pawn } else if piece == def::BP { bb.b_pawn }
    else if piece == def::WN { bb.w_knight } else if piece == def::BN { bb.b_knight }
    else if piece == def::WB { bb.w_bishop } else if piece == def::BB { bb.b_bishop }
    else if piece == def::WR { bb.w_rook } else if piece == def::BR { bb.b_rook }
    else if piece == def::WQ { bb.w_queen } else if piece == def::BQ { bb.b_queen }
    else { 0 }
}

/// A code whose kind has a board of its own (all pieces but kings).
pub open spec fn has_kind_board(piece: u8) -> bool {
    piece == def::WP || piece == def::BP || piece == def::WN || piece == def::BN
    || piece == def::WB || piece == def::BB || piece == def::WR || piece == def::BR
    || piece == def::WQ || piece == def::BQ
}

/// The board after the bits of `mask` are flipped in the side board of `piece`
/// (the white one for a white piece, the black one otherwise) and in its kind board.
pub open spec fn toggled(bb: BitBoard, piece: u8, mask: u64) -> BitBoard {
    let side = if piece != 0 && def::side_of(piece) == def::PLAYER_W {
        BitBoard { w_all: bb.w_all ^ mask, ..bb }
    } else {
        BitBoard { b_all: bb.b_all ^ mask, ..bb }
    };
    if piece == def::WP { BitBoard { w_pawn: side.w_pawn ^ mask, ..side } }
    else if piece == def::BP { BitBoard { b_pawn: side.b_pawn ^ mask, ..side } }
    else if piece == def::WN { BitBoard { w_knight: side.w_knight ^ mask, ..side } }
    else if piece == def::BN { BitBoard { b_knight: side.b_knight ^ mask, ..side } }
    else if piece == def::WB { BitBoard { w_bishop: side.w_bishop ^ mask, ..side } }
    else if piece == def::BB { BitBoard { b_bishop: side.b_bishop ^ mask, ..side } }
    else if piece == def::WR { BitBoard { w_rook: side.w_rook ^ mask, ..side } }
    else if piece == def::BR { BitBoard { b_rook: side.b_rook ^ mask, ..side } }
    else if piece == def::WQ { BitBoard { w_queen: side.w_queen ^ mask, ..side } }
    else if piece == def::BQ { BitBoard { b_queen: side.b_queen ^ mask, ..side } }
    else { side }
}

/// The boards agree with the squares: a kind board has exactly the squares of its piece,
/// a side board exactly the squares of that side's pieces.
pub open spec fn matches_squares(bb: BitBoard, squares: Seq<u8>) -> bool {
    &&& squares.len() == 64
    &&& forall|i: int, p: u8| 0 <= i < 64 && has_kind_board(p) ==>
            (#[trigger] has_bit(kind_board(bb, p), i) <==> squares[i] == p)
    &&& forall|i: int| 0 <= i < 64 ==>
            (#[trigger] has_bit(bb.w_all, i) <==> (squares[i] != 0 && def::side_of(squares[i]) == def::PLAYER_W))
    &&& forall|i: int| 0 <= i < 64 ==>
            (#[trigger] has_bit(bb.b_all, i) <==> (squares[i] != 0 && def::side_of(squares[i]) == def::PLAYER_B))
}

impl BitBoard {
    pub open spec fn is_empty(self) -> bool {
        &&& self.w_all == 0 && self.b_all == 0
        &&& self.w_pawn == 0 && self.b_pawn == 0
        &&& self.w_knight == 0 && self.b_knight == 0
        &&& self.w_bishop == 0 && self.b_bishop == 0
        &&& self.w_rook == 0 && self.b_rook == 0
        &&& self.w_queen == 0 && self.b_queen == 0
    }

    pub fn new() -> (r: Self)
        ensures
            r.is_empty(),
    {
        BitBoard {
            w_all: 0,
            w_pawn: 0,
            w_knight: 0,
            w_bishop: 0,
            w_rook: 0,
            w_queen: 0,

            b_all: 0,
            b_pawn: 0,
            b_knight: 0,
            b_bishop: 0,
            b_rook: 0,
            b_queen: 0,
        }
    }

    /// Flips the bits of `mask` in the side board and the kind board of `piece`.
    pub fn toggle(&mut self, piece: u8, mask: u64)
        ensures
            *final(self) == toggled(*old(self), piece, mask),
    {
        if piece != 0 && piece % 4 == def::PLAYER_W {
            self.w_all = self.w_all ^ mask;
        } else {
            self.b_all = self.b_all ^ mask;
        }
        match piece {
            def::WP => self.w_pawn = self.w_pawn ^ mask,
            def::BP => self.b_pawn = self.b_pawn ^ mask,
            def::WN => self.w_knight = self.w_knight ^ mask,
            def::BN => self.b_knight = self.b_knight ^ mask,
            def::WB => self.w_bishop = self.w_bishop ^ mask,
            def::BB => self.b_bishop = self.b_bishop ^ mask,
            def::WR => self.w_rook = self.w_rook ^ mask,
            def::BR => self.b_rook = self.b_rook ^ mask,
            def::WQ => self.w_queen = self.w_queen ^ mask,
            def::BQ => self.b_queen = self.b_queen ^ mask,
            _ => {},
        }
    }
}

/// Moving one piece on or off square `k` keeps the boards in step with the squares.
pub proof fn lemma_toggle_matches(bb: BitBoard, squares: Seq<u8>, k: int, piece: u8)
    requires
        matches_squares(bb, squares),
        0 <= k < 64,
        def::is_piece(piece),
        squares[k] == 0 || squares[k] == piece,
    ensures
        matches_squares(toggled(bb, piece, single(k)),
            squares.update(k, if squares[k] == 0 { piece } else { 0u8 })),
{
    let nb = toggled(bb, piece, single(k));
    let ns = squares.update(k, if squares[k] == 0 { piece } else { 0u8 });
    assert forall|i: int, p: u8| 0 <= i < 64 && has_kind_board(p) implies
        (#[trigger] has_bit(kind_board(nb, p), i) <==> ns[i] == p) by {
        lemma_xor_bit(kind_board(bb, p), single(k), i);
        lemma_single_bit(k, i);
        assert(has_bit(kind_board(bb, p), i) <==> squares[i] == p);
    }
    assert forall|i: int| 0 <= i < 64 implies
        (#[trigger] has_bit(nb.w_all, i) <==> (ns[i] != 0 && def::side_of(ns[i]) == def::PLAYER_W)) by {
        lemma_xor_bit(bb.w_all, single(k), i);
        lemma_single_bit(k, i);
        assert(has_bit(bb.w_all, i) <==> (squares[i] != 0 && def::side_of(squares[i]) == def::PLAYER_W));
    }
    assert forall|i: int| 0 <= i < 64 implies
        (#[trigger] has_bit(nb.b_all, i) <==> (ns[i] != 0 && def::side_of(ns[i]) == def::PLAYER_B)) by {
        lemma_xor_bit(bb.b_all, single(k), i);
        lemma_single_bit(k, i);
        assert(has_bit(bb.b_all, i) <==> (squares[i] != 0 && def::side_of(squares[i]) == def::PLAYER_B));
    }
}

} // verus!
