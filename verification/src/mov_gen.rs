//! Pseudo-legal move generation on the square array: regular moves and captures of
//! every piece, castling, and the attack tests that legality and exchanges rest on.
use vstd::prelude::*;
use crate::def;
use crate::mov_tbl::{self, ray, steps, n_offsets, k_offsets, is_table};
use crate::state::State;
use crate::util::{encode_mov, encode_u32_mov};

verus! {

/// The encoding of a move.
pub open spec fn enc(from: int, to: int, tp: u8, promo: u8) -> u32 {
    encode_mov(from as usize, to as usize, tp, promo)
}

/// A piece of the side that is not `player`.
pub open spec fn enemy(player: u8, piece: u8) -> bool {
    piece != 0 && def::side_of(piece) != player
}

/// The four promotions from `from` to `to` for `player`: queen, rook, bishop, knight.
pub open spec fn promos(player: u8, from: int, to: int) -> Seq<u32> {
    if player == def::PLAYER_W {
        seq![enc(from, to, def::MOV_PROMO, def::WQ), enc(from, to, def::MOV_PROMO, def::WR),
             enc(from, to, def::MOV_PROMO, def::WB), enc(from, to, def::MOV_PROMO, def::WN)]
    } else {
        seq![enc(from, to, def::MOV_PROMO, def::BQ), enc(from, to, def::MOV_PROMO, def::BR),
             enc(from, to, def::MOV_PROMO, def::BB), enc(from, to, def::MOV_PROMO, def::BN)]
    }
}

/// The non-captures of a knight or king on `from` to the squares `ts`: the empty ones.
pub open spec fn step_quiets(sq: Seq<u8>, from: int, ts: Seq<usize>) -> Seq<u32>
    decreases ts.len(),
{
    if ts.len() == 0 {
        Seq::empty()
    } else {
        let rest = step_quiets(sq, from, ts.drop_last());
        if sq[ts.last() as int] == 0 { rest.push(enc(from, ts.last() as int, def::MOV_REG, 0)) } else { rest }
    }
}

/// The captures of a knight or king on `from` on the squares `ts`: those with an enemy piece.
pub open spec fn step_caps(sq: Seq<u8>, player: u8, from: int, ts: Seq<usize>) -> Seq<u32>
    decreases ts.len(),
{
    if ts.len() == 0 {
        Seq::empty()
    } else {
        let rest = step_caps(sq, player, from, ts.drop_last());
        if enemy(player, sq[ts.last() as int]) { rest.push(enc(from, ts.last() as int, def::MOV_REG, 0)) } else { rest }
    }
}

/// The position on the ray `ts` of its first occupied square (its length when there is none).
pub open spec fn first_blocker(sq: Seq<u8>, ts: Seq<usize>) -> int
    decreases ts.len(),
{
    if ts.len() == 0 {
        0
    } else if sq[ts[0] as int] != 0 {
        0
    } else {
        1 + first_blocker(sq, ts.drop_first())
    }
}

/// The non-captures along a ray: the empty squares before the first occupied one.
pub open spec fn ray_quiets(sq: Seq<u8>, from: int, ts: Seq<usize>) -> Seq<u32> {
    Seq::new(first_blocker(sq, ts) as nat, |k: int| enc(from, ts[k] as int, def::MOV_REG, 0))
}

/// The capture along a ray: its first occupied square, if an enemy piece stands there.
pub open spec fn ray_caps(sq: Seq<u8>, player: u8, from: int, ts: Seq<usize>) -> Seq<u32> {
    let b = first_blocker(sq, ts);
    if b < ts.len() && enemy(player, sq[ts[b] as int]) { seq![enc(from, ts[b] as int, def::MOV_REG, 0)] } else { Seq::empty() }
}

pub open spec fn bishop_quiets(sq: Seq<u8>, from: int) -> Seq<u32> {
    ray_quiets(sq, from, ray(from, 1, -1)) + ray_quiets(sq, from, ray(from, 1, 1))
        + ray_quiets(sq, from, ray(from, -1, 1)) + ray_quiets(sq, from, ray(from, -1, -1))
}

pub open spec fn bishop_caps(sq: Seq<u8>, player: u8, from: int) -> Seq<u32> {
    ray_caps(sq, player, from, ray(from, 1, -1)) + ray_caps(sq, player, from, ray(from, 1, 1))
        + ray_caps(sq, player, from, ray(from, -1, 1)) + ray_caps(sq, player, from, ray(from, -1, -1))
}

pub open spec fn rook_quiets(sq: Seq<u8>, from: int) -> Seq<u32> {
    ray_quiets(sq, from, ray(from, 1, 0)) + ray_quiets(sq, from, ray(from, 0, 1))
        + ray_quiets(sq, from, ray(from, -1, 0)) + ray_quiets(sq, from, ray(from, 0, -1))
}

pub open spec fn rook_caps(sq: Seq<u8>, player: u8, from: int) -> Seq<u32> {
    ray_caps(sq, player, from, ray(from, 1, 0)) + ray_caps(sq, player, from, ray(from, 0, 1))
        + ray_caps(sq, player, from, ray(from, -1, 0)) + ray_caps(sq, player, from, ray(from, 0, -1))
}

/// The non-captures of a white pawn: one step to an empty square (as four promotions on
/// the last rank), and from the first two ranks a double step when both squares are empty.
pub open spec fn wp_quiets(sq: Seq<u8>, from: int) -> Seq<u32> {
    let to = from + 8;
    if to < 64 && sq[to] == 0 {
        if to > 55 {
            promos(def::PLAYER_W, from, to)
        } else if from < 16 && sq[from + 16] == 0 {
            seq![enc(from, to, def::MOV_REG, 0), enc(from, from + 16, def::MOV_CR_ENP, 0)]
        } else {
            seq![enc(from, to, def::MOV_REG, 0)]
        }
    } else {
        Seq::empty()
    }
}

/// The non-captures of a black pawn, as for white towards the first rank
/// (a pawn on the first rank has none).
pub open spec fn bp_quiets(sq: Seq<u8>, from: int) -> Seq<u32> {
    let to = from - 8;
    if from >= 8 && sq[to] == 0 {
        if to < 8 {
            promos(def::PLAYER_B, from, to)
        } else if from > 47 && sq[from - 16] == 0 {
            seq![enc(from, to, def::MOV_REG, 0), enc(from, from - 16, def::MOV_CR_ENP, 0)]
        } else {
            seq![enc(from, to, def::MOV_REG, 0)]
        }
    } else {
        Seq::empty()
    }
}

/// A pawn's captures on `t`: of an enemy piece (four promotions when `t` is on the last
/// rank), then en passant when `t` is the en-passant square (`t` not 0 in `with_zero` off).
pub open spec fn pawn_caps_on(sq: Seq<u8>, player: u8, enp: usize, from: int, t: int, last_rank: bool, with_zero: bool) -> Seq<u32> {
    let cap = if enemy(player, sq[t]) {
        if last_rank { promos(player, from, t) } else { seq![enc(from, t, def::MOV_REG, 0)] }
    } else {
        Seq::empty()
    };
    if t == enp && (with_zero || t != 0) { cap.push(enc(from, t, def::MOV_ENP, 0)) } else { cap }
}

/// The captures of a white pawn: towards the a-file side first, then the h-file side.
pub open spec fn wp_caps(sq: Seq<u8>, player: u8, enp: usize, from: int) -> Seq<u32> {
    let left = if from % 8 > 0 && from + 7 < 64 {
        pawn_caps_on(sq, player, enp, from, from + 7, from + 7 > 55, true)
    } else {
        Seq::empty()
    };
    let right = if from % 8 < 7 && from + 9 < 64 {
        pawn_caps_on(sq, player, enp, from, from + 9, from + 9 > 55, true)
    } else {
        Seq::empty()
    };
    left + right
}

/// The captures of a black pawn: towards the h-file side first, then the a-file side
/// (a pawn on the first rank has none).
pub open spec fn bp_caps(sq: Seq<u8>, player: u8, enp: usize, from: int) -> Seq<u32> {
    let right = if from >= 8 && from % 8 < 7 {
        pawn_caps_on(sq, player, enp, from, from - 7, from - 7 < 8, false)
    } else {
        Seq::empty()
    };
    let left = if from >= 8 && from % 8 > 0 {
        pawn_caps_on(sq, player, enp, from, from - 9, from - 9 < 8, false)
    } else {
        Seq::empty()
    };
    right + left
}

/// The non-captures of the piece of `player` on `from` (none when the square holds no such piece).
pub open spec fn piece_quiets(sq: Seq<u8>, player: u8, from: int) -> Seq<u32> {
    let p = sq[from];
    let kind = def::kind_of(p);
    if p == 0 || def::side_of(p) != player {
        Seq::empty()
    } else if kind == def::KIND_P {
        if player == def::PLAYER_W { wp_quiets(sq, from) } else { bp_quiets(sq, from) }
    } else if kind == def::KIND_N {
        step_quiets(sq, from, steps(from, n_offsets()))
    } else if kind == def::KIND_B {
        bishop_quiets(sq, from)
    } else if kind == def::KIND_R {
        rook_quiets(sq, from)
    } else if kind == def::KIND_Q {
        bishop_quiets(sq, from) + rook_quiets(sq, from)
    } else if kind == def::KIND_K {
        step_quiets(sq, from, steps(from, k_offsets()))
    } else {
        Seq::empty()
    }
}

/// The captures of the piece of `player` on `from` (none when the square holds no such piece).
pub open spec fn piece_caps(sq: Seq<u8>, player: u8, enp: usize, from: int) -> Seq<u32> {
    let p = sq[from];
    let kind = def::kind_of(p);
    if p == 0 || def::side_of(p) != player {
        Seq::empty()
    } else if kind == def::KIND_P {
        if player == def::PLAYER_W { wp_caps(sq, player, enp, from) } else { bp_caps(sq, player, enp, from) }
    } else if kind == def::KIND_N {
        step_caps(sq, player, from, steps(from, n_offsets()))
    } else if kind == def::KIND_B {
        bishop_caps(sq, player, from)
    } else if kind == def::KIND_R {
        rook_caps(sq, player, from)
    } else if kind == def::KIND_Q {
        bishop_caps(sq, player, from) + rook_caps(sq, player, from)
    } else if kind == def::KIND_K {
        step_caps(sq, player, from, steps(from, k_offsets()))
    } else {
        Seq::empty()
    }
}

/// The non-captures of all pieces of `player` on the first `n` squares, square by square.
pub open spec fn all_quiets(sq: Seq<u8>, player: u8, n: int) -> Seq<u32>
    decreases n,
{
    if n <= 0 { Seq::empty() } else { all_quiets(sq, player, n - 1) + piece_quiets(sq, player, n - 1) }
}

/// The captures of all pieces of `player` on the first `n` squares, square by square.
pub open spec fn all_caps(sq: Seq<u8>, player: u8, enp: usize, n: int) -> Seq<u32>
    decreases n,
{
    if n <= 0 { Seq::empty() } else { all_caps(sq, player, enp, n - 1) + piece_caps(sq, player, enp, n - 1) }
}

pub proof fn lemma_first_blocker(sq: Seq<u8>, ts: Seq<usize>, i: int)
    requires
        0 <= i <= ts.len(),
        forall|k: int| 0 <= k < i ==> sq[#[trigger] ts[k] as int] == 0,
        i == ts.len() || sq[ts[i] as int] != 0,
    ensures
        first_blocker(sq, ts) == i,
    decreases i,
{
    if i > 0 {
        let rest = ts.drop_first();
        assert forall|k: int| 0 <= k < i - 1 implies sq[#[trigger] rest[k] as int] == 0 by {
            assert(rest[k] == ts[k + 1]);
        }
        lemma_first_blocker(sq, rest, i - 1);
    }
}

/// Adds the moves of a knight or king on `from` to the squares `ts`.
fn add_step_moves(ts: &Vec<usize>, sq: &[u8; 64], player: u8, from: usize, want_quiets: bool,
    quiets: &mut Vec<u32>, caps: &mut Vec<u32>)
    requires
        def::is_player(player),
        forall|k: int| 0 <= k < ts@.len() ==> #[trigger] ts@[k] < 64,
    ensures
        final(quiets)@ == old(quiets)@ + (if want_quiets { step_quiets(sq@, from as int, ts@) } else { Seq::empty() }),
        final(caps)@ == old(caps)@ + step_caps(sq@, player, from as int, ts@),
{
    let mut i: usize = 0;
    while i < ts.len()
        invariant
            i <= ts@.len(),
            def::is_player(player),
            forall|k: int| 0 <= k < ts@.len() ==> #[trigger] ts@[k] < 64,
            quiets@ == old(quiets)@ + (if want_quiets { step_quiets(sq@, from as int, ts@.subrange(0, i as int)) } else { Seq::empty() }),
            caps@ == old(caps)@ + step_caps(sq@, player, from as int, ts@.subrange(0, i as int)),
        decreases ts@.len() - i,
    {
        let to_index = ts[i];
        let taken_piece = sq[to_index];
        let ghost sub = ts@.subrange(0, i + 1);
        assert(sub.drop_last() =~= ts@.subrange(0, i as int));
        if taken_piece == 0 {
            if want_quiets {
                quiets.push(encode_u32_mov(from, to_index, def::MOV_REG, 0));
            }
        } else if !def::on_same_side(player, taken_piece) {
            caps.push(encode_u32_mov(from, to_index, def::MOV_REG, 0));
        }
        i = i + 1;
    }
    assert(ts@.subrange(0, ts@.len() as int) =~= ts@);
}

/// Adds the moves of a sliding piece on `from` along the ray `ts`.
fn add_ray_moves(ts: &Vec<usize>, sq: &[u8; 64], player: u8, from: usize, want_quiets: bool,
    quiets: &mut Vec<u32>, caps: &mut Vec<u32>)
    requires
        def::is_player(player),
        forall|k: int| 0 <= k < ts@.len() ==> #[trigger] ts@[k] < 64,
    ensures
        final(quiets)@ == old(quiets)@ + (if want_quiets { ray_quiets(sq@, from as int, ts@) } else { Seq::empty() }),
        final(caps)@ == old(caps)@ + ray_caps(sq@, player, from as int, ts@),
{
    let mut i: usize = 0;
    while i < ts.len()
        invariant
            i <= ts@.len(),
            def::is_player(player),
            forall|k: int| 0 <= k < ts@.len() ==> #[trigger] ts@[k] < 64,
            forall|k: int| 0 <= k < i ==> sq@[#[trigger] ts@[k] as int] == 0,
            quiets@ == old(quiets)@ + (if want_quiets {
                Seq::new(i as nat, |k: int| enc(from as int, ts@[k] as int, def::MOV_REG, 0))
            } else { Seq::empty() }),
            caps@ == old(caps)@,
        decreases ts@.len() - i,
    {
        let to_index = ts[i];
        let taken_piece = sq[to_index];
        if taken_piece == 0 {
            if want_quiets {
                quiets.push(encode_u32_mov(from, to_index, def::MOV_REG, 0));
                assert(quiets@ =~= old(quiets)@ + Seq::new((i + 1) as nat, |k: int| enc(from as int, ts@[k] as int, def::MOV_REG, 0)));
            }
            i = i + 1;
        } else {
            proof {
                lemma_first_blocker(sq@, ts@, i as int);
            }
            if !def::on_same_side(player, taken_piece) {
                caps.push(encode_u32_mov(from, to_index, def::MOV_REG, 0));
            }
            assert(quiets@ =~= old(quiets)@ + (if want_quiets { ray_quiets(sq@, from as int, ts@) } else { Seq::empty() }));
            assert(caps@ =~= old(caps)@ + ray_caps(sq@, player, from as int, ts@));
            return;
        }
    }
    proof {
        lemma_first_blocker(sq@, ts@, i as int);
    }
    assert(quiets@ =~= old(quiets)@ + (if want_quiets { ray_quiets(sq@, from as int, ts@) } else { Seq::empty() }));
    assert(caps@ =~= old(caps)@ + ray_caps(sq@, player, from as int, ts@));
}

fn add_promos(player: u8, from: usize, to: usize, list: &mut Vec<u32>)
    ensures
        final(list)@ == old(list)@ + promos(player, from as int, to as int),
{
    if player == def::PLAYER_W {
        list.push(encode_u32_mov(from, to, def::MOV_PROMO, def::WQ));
        list.push(encode_u32_mov(from, to, def::MOV_PROMO, def::WR));
        list.push(encode_u32_mov(from, to, def::MOV_PROMO, def::WB));
        list.push(encode_u32_mov(from, to, def::MOV_PROMO, def::WN));
    } else {
        list.push(encode_u32_mov(from, to, def::MOV_PROMO, def::BQ));
        list.push(encode_u32_mov(from, to, def::MOV_PROMO, def::BR));
        list.push(encode_u32_mov(from, to, def::MOV_PROMO, def::BB));
        list.push(encode_u32_mov(from, to, def::MOV_PROMO, def::BN));
    }
    assert(list@ =~= old(list)@ + promos(player, from as int, to as int));
}

fn add_pawn_quiets(sq: &[u8; 64], player: u8, from: usize, quiets: &mut Vec<u32>)
    requires
        from < 64,
    ensures
        final(quiets)@ == old(quiets)@ + (if player == def::PLAYER_W { wp_quiets(sq@, from as int) } else { bp_quiets(sq@, from as int) }),
{
    if player == def::PLAYER_W {
        let to_index = from + 8;
        if to_index < 64 && sq[to_index] == 0 {
            if to_index > 55 {
                add_promos(player, from, to_index, quiets);
            } else {
                quiets.push(encode_u32_mov(from, to_index, def::MOV_REG, 0));
                if from < 16 && sq[from + 16] == 0 {
                    quiets.push(encode_u32_mov(from, from + 16, def::MOV_CR_ENP, 0));
                }
            }
        }
    } else if from >= 8 {
        let to_index = from - 8;
        if sq[to_index] == 0 {
            if to_index < 8 {
                add_promos(player, from, to_index, quiets);
            } else {
                quiets.push(encode_u32_mov(from, to_index, def::MOV_REG, 0));
                if from > 47 && sq[from - 16] == 0 {
                    quiets.push(encode_u32_mov(from, from - 16, def::MOV_CR_ENP, 0));
                }
            }
        }
    }
    assert(quiets@ =~= old(quiets)@ + (if player == def::PLAYER_W { wp_quiets(sq@, from as int) } else { bp_quiets(sq@, from as int) }));
}

fn add_pawn_caps_on(sq: &[u8; 64], player: u8, enp: usize, from: usize, t: usize, last_rank: bool,
    with_zero: bool, caps: &mut Vec<u32>)
    requires
        def::is_player(player),
        t < 64,
    ensures
        final(caps)@ == old(caps)@ + pawn_caps_on(sq@, player, enp, from as int, t as int, last_rank, with_zero),
{
    let take = sq[t];
    if take != 0 && !def::on_same_side(player, take) {
        if last_rank {
            add_promos(player, from, t, caps);
        } else {
            caps.push(encode_u32_mov(from, t, def::MOV_REG, 0));
        }
    }
    if t == enp && (with_zero || t != 0) {
        caps.push(encode_u32_mov(from, t, def::MOV_ENP, 0));
    }
    assert(caps@ =~= old(caps)@ + pawn_caps_on(sq@, player, enp, from as int, t as int, last_rank, with_zero));
}

fn add_pawn_caps(sq: &[u8; 64], player: u8, enp: usize, from: usize, caps: &mut Vec<u32>)
    requires
        def::is_player(player),
        from < 64,
    ensures
        final(caps)@ == old(caps)@ + (if player == def::PLAYER_W { wp_caps(sq@, player, enp, from as int) } else { bp_caps(sq@, player, enp, from as int) }),
{
    let ghost c0 = caps@;
    if player == def::PLAYER_W {
        if from % 8 > 0 && from + 7 < 64 {
            add_pawn_caps_on(sq, player, enp, from, from + 7, from + 7 > 55, true, caps);
        }
        let ghost c1 = caps@;
        if from % 8 < 7 && from + 9 < 64 {
            add_pawn_caps_on(sq, player, enp, from, from + 9, from + 9 > 55, true, caps);
        }
        assert(caps@ =~= c0 + wp_caps(sq@, player, enp, from as int));
    } else {
        if from >= 8 && from % 8 < 7 {
            add_pawn_caps_on(sq, player, enp, from, from - 7, from - 7 < 8, false, caps);
        }
        if from >= 8 && from % 8 > 0 {
            add_pawn_caps_on(sq, player, enp, from, from - 9, from - 9 < 8, false, caps);
        }
        assert(caps@ =~= c0 + bp_caps(sq@, player, enp, from as int));
    }
}

pub struct MoveGenerator {
    k_mov_table: Vec<Vec<usize>>,
    n_mov_table: Vec<Vec<usize>>,

    up_mov_table: Vec<Vec<usize>>,
    down_mov_table: Vec<Vec<usize>>,
    left_mov_table: Vec<Vec<usize>>,
    right_mov_table: Vec<Vec<usize>>,

    up_left_mov_table: Vec<Vec<usize>>,
    up_right_mov_table: Vec<Vec<usize>>,
    down_right_mov_table: Vec<Vec<usize>>,
    down_left_mov_table: Vec<Vec<usize>>,
}

impl MoveGenerator {
    /// Every table holds, for every square, the squares of its kind of step or ray.
    pub closed spec fn wf(&self) -> bool {
        &&& is_table(self.k_mov_table@, |from: int| steps(from, k_offsets()))
        &&& is_table(self.n_mov_table@, |from: int| steps(from, n_offsets()))
        &&& is_table(self.up_mov_table@, |from: int| ray(from, 1, 0))
        &&& is_table(self.down_mov_table@, |from: int| ray(from, -1, 0))
        &&& is_table(self.left_mov_table@, |from: int| ray(from, 0, -1))
        &&& is_table(self.right_mov_table@, |from: int| ray(from, 0, 1))
        &&& is_table(self.up_left_mov_table@, |from: int| ray(from, 1, -1))
        &&& is_table(self.up_right_mov_table@, |from: int| ray(from, 1, 1))
        &&& is_table(self.down_right_mov_table@, |from: int| ray(from, -1, 1))
        &&& is_table(self.down_left_mov_table@, |from: int| ray(from, -1, -1))
    }

    pub fn new() -> (r: Self)
        ensures
            r.wf(),
    {
        MoveGenerator {
            k_mov_table: mov_tbl::gen_k_mov_table(),
            n_mov_table: mov_tbl::gen_n_mov_table(),

            up_mov_table: mov_tbl::gen_up_slide_mov_table(),
            down_mov_table: mov_tbl::gen_down_slide_mov_table(),
            left_mov_table: mov_tbl::gen_left_slide_mov_table(),
            right_mov_table: mov_tbl::gen_right_slide_mov_table(),

            up_left_mov_table: mov_tbl::gen_up_left_slide_mov_table(),
            up_right_mov_table: mov_tbl::gen_up_right_slide_mov_table(),
            down_right_mov_table: mov_tbl::gen_down_right_slide_mov_table(),
            down_left_mov_table: mov_tbl::gen_down_left_slide_mov_table(),
        }
    }

    fn add_ray(&self, table: &Vec<Vec<usize>>, dr: Ghost<int>, df: Ghost<int>, sq: &[u8; 64], player: u8,
        from: usize, want_quiets: bool, quiets: &mut Vec<u32>, caps: &mut Vec<u32>)
        requires
            def::is_player(player),
            from < 64,
            mov_tbl::is_dir(dr@),
            mov_tbl::is_dir(df@),
            is_table(table@, |f: int| ray(f, dr@, df@)),
        ensures
            final(quiets)@ == old(quiets)@ + (if want_quiets { ray_quiets(sq@, from as int, ray(from as int, dr@, df@)) } else { Seq::empty() }),
            final(caps)@ == old(caps)@ + ray_caps(sq@, player, from as int, ray(from as int, dr@, df@)),
    {
        proof {
            mov_tbl::lemma_ray_bounded(from as int, dr@, df@);
            assert(table@[from as int]@ == ray(from as int, dr@, df@));
        }
        add_ray_moves(&table[from], sq, player, from, want_quiets, quiets, caps);
    }

    fn add_diag_moves(&self, sq: &[u8; 64], player: u8, from: usize, want_quiets: bool,
        quiets: &mut Vec<u32>, caps: &mut Vec<u32>)
        requires
            self.wf(),
            def::is_player(player),
            from < 64,
        ensures
            final(quiets)@ == old(quiets)@ + (if want_quiets { bishop_quiets(sq@, from as int) } else { Seq::empty() }),
            final(caps)@ == old(caps)@ + bishop_caps(sq@, player, from as int),
    {
        let ghost q0 = quiets@;
        let ghost c0 = caps@;
        self.add_ray(&self.up_left_mov_table, Ghost(1), Ghost(-1), sq, player, from, want_quiets, quiets, caps);
        self.add_ray(&self.up_right_mov_table, Ghost(1), Ghost(1), sq, player, from, want_quiets, quiets, caps);
        self.add_ray(&self.down_right_mov_table, Ghost(-1), Ghost(1), sq, player, from, want_quiets, quiets, caps);
        self.add_ray(&self.down_left_mov_table, Ghost(-1), Ghost(-1), sq, player, from, want_quiets, quiets, caps);
        assert(quiets@ =~= q0 + (if want_quiets { bishop_quiets(sq@, from as int) } else { Seq::empty() }));
        assert(caps@ =~= c0 + bishop_caps(sq@, player, from as int));
    }

    fn add_straight_moves(&self, sq: &[u8; 64], player: u8, from: usize, want_quiets: bool,
        quiets: &mut Vec<u32>, caps: &mut Vec<u32>)
        requires
            self.wf(),
            def::is_player(player),
            from < 64,
        ensures
            final(quiets)@ == old(quiets)@ + (if want_quiets { rook_quiets(sq@, from as int) } else { Seq::empty() }),
            final(caps)@ == old(caps)@ + rook_caps(sq@, player, from as int),
    {
        let ghost q0 = quiets@;
        let ghost c0 = caps@;
        self.add_ray(&self.up_mov_table, Ghost(1), Ghost(0), sq, player, from, want_quiets, quiets, caps);
        self.add_ray(&self.right_mov_table, Ghost(0), Ghost(1), sq, player, from, want_quiets, quiets, caps);
        self.add_ray(&self.down_mov_table, Ghost(-1), Ghost(0), sq, player, from, want_quiets, quiets, caps);
        self.add_ray(&self.left_mov_table, Ghost(0), Ghost(-1), sq, player, from, want_quiets, quiets, caps);
        assert(quiets@ =~= q0 + (if want_quiets { rook_quiets(sq@, from as int) } else { Seq::empty() }));
        assert(caps@ =~= c0 + rook_caps(sq@, player, from as int));
    }

    fn add_slider_moves(&self, sq: &[u8; 64], player: u8, from: usize, diagonal: bool, straight: bool,
        want_quiets: bool, quiets: &mut Vec<u32>, caps: &mut Vec<u32>)
        requires
            self.wf(),
            def::is_player(player),
            from < 64,
        ensures
            final(quiets)@ == old(quiets)@ + (if want_quiets {
                (if diagonal { bishop_quiets(sq@, from as int) } else { Seq::empty() })
                    + (if straight { rook_quiets(sq@, from as int) } else { Seq::empty() })
            } else { Seq::empty() }),
            final(caps)@ == old(caps)@ + (if diagonal { bishop_caps(sq@, player, from as int) } else { Seq::empty() })
                + (if straight { rook_caps(sq@, player, from as int) } else { Seq::empty() }),
    {
        let ghost q0 = quiets@;
        let ghost c0 = caps@;
        if diagonal {
            self.add_diag_moves(sq, player, from, want_quiets, quiets, caps);
        }
        let ghost q1 = quiets@;
        let ghost c1 = caps@;
        if straight {
            self.add_straight_moves(sq, player, from, want_quiets, quiets, caps);
        }
        assert(quiets@ =~= q0 + (if want_quiets {
                (if diagonal { bishop_quiets(sq@, from as int) } else { Seq::empty() })
                    + (if straight { rook_quiets(sq@, from as int) } else { Seq::empty() })
            } else { Seq::empty() }));
        assert(caps@ =~= c0 + (if diagonal { bishop_caps(sq@, player, from as int) } else { Seq::empty() })
                + (if straight { rook_caps(sq@, player, from as int) } else { Seq::empty() }));
    }

    fn add_piece_moves(&self, sq: &[u8; 64], player: u8, enp: usize, from: usize, want_quiets: bool,
        quiets: &mut Vec<u32>, caps: &mut Vec<u32>)
        requires
            self.wf(),
            def::is_player(player),
            from < 64,
        ensures
            final(quiets)@ == old(quiets)@ + (if want_quiets { piece_quiets(sq@, player, from as int) } else { Seq::empty() }),
            final(caps)@ == old(caps)@ + piece_caps(sq@, player, enp, from as int),
    {
        let moving_piece = sq[from];
        let ghost q0 = quiets@;
        let ghost c0 = caps@;
        if moving_piece == 0 || !def::on_same_side(player, moving_piece) {
            assert(quiets@ =~= q0 + Seq::<u32>::empty());
            assert(caps@ =~= c0 + Seq::<u32>::empty());
            return;
        }
        if def::is_p(moving_piece) {
            if want_quiets {
                add_pawn_quiets(sq, player, from, quiets);
            }
            add_pawn_caps(sq, player, enp, from, caps);
            assert(quiets@ =~= q0 + (if want_quiets { piece_quiets(sq@, player, from as int) } else { Seq::empty() }));
        } else if def::is_n(moving_piece) {
            proof {
                mov_tbl::lemma_steps_on_board(from as int, n_offsets());
                assert(self.n_mov_table@[from as int]@ == steps(from as int, n_offsets()));
            }
            add_step_moves(&self.n_mov_table[from], sq, player, from, want_quiets, quiets, caps);
        } else if def::is_k(moving_piece) {
            proof {
                mov_tbl::lemma_steps_on_board(from as int, k_offsets());
                assert(self.k_mov_table@[from as int]@ == steps(from as int, k_offsets()));
            }
            add_step_moves(&self.k_mov_table[from], sq, player, from, want_quiets, quiets, caps);
        } else if def::is_b(moving_piece) || def::is_q(moving_piece) || def::is_r(moving_piece) {
            let diagonal = !def::is_r(moving_piece);
            let straight = !def::is_b(moving_piece);
            self.add_slider_moves(sq, player, from, diagonal, straight, want_quiets, quiets, caps);
            assert(quiets@ =~= q0 + (if want_quiets { piece_quiets(sq@, player, from as int) } else { Seq::empty() }));
            assert(caps@ =~= c0 + piece_caps(sq@, player, enp, from as int));
        } else {
            assert(quiets@ =~= q0 + Seq::<u32>::empty());
            assert(caps@ =~= c0 + Seq::<u32>::empty());
        }
    }

    fn gen_mov_lists(&self, sq: &[u8; 64], player: u8, enp: usize, want_quiets: bool) -> (r: (Vec<u32>, Vec<u32>))
        requires
            self.wf(),
            def::is_player(player),
        ensures
            r.0@ == all_caps(sq@, player, enp, 64),
            want_quiets ==> r.1@ == all_quiets(sq@, player, 64),
    {
        let mut cap_list: Vec<u32> = Vec::new();
        let mut mov_list: Vec<u32> = Vec::new();
        let mut from_index: usize = 0;
        while from_index < 64
            invariant
                from_index <= 64,
                self.wf(),
                def::is_player(player),
                cap_list@ == all_caps(sq@, player, enp, from_index as int),
                want_quiets ==> mov_list@ == all_quiets(sq@, player, from_index as int),
            decreases 64 - from_index,
        {
            self.add_piece_moves(sq, player, enp, from_index, want_quiets, &mut mov_list, &mut cap_list);
            from_index = from_index + 1;
        }
        (cap_list, mov_list)
    }

    /// The captures and the non-captures of the side to move, castling apart.
    pub fn gen_reg_mov_list(&self, state: &State) -> (r: (Vec<u32>, Vec<u32>))
        requires
            self.wf(),
            def::is_player(state.player),
        ensures
            r.0@ == all_caps(state.squares@, state.player, state.enp_square, 64),
            r.1@ == all_quiets(state.squares@, state.player, 64),
    {
        self.gen_mov_lists(&state.squares, state.player, state.enp_square, true)
    }

    /// The captures of the side to move.
    pub fn gen_capture_list(&self, state: &State) -> (r: Vec<u32>)
        requires
            self.wf(),
            def::is_player(state.player),
        ensures
            r@ == all_caps(state.squares@, state.player, state.enp_square, 64),
    {
        let (cap_list, _mov_list) = self.gen_mov_lists(&state.squares, state.player, state.enp_square, false);
        cap_list
    }
}

/// Some square of `ts` holds an enemy piece of the given kind.
pub open spec fn step_attacked(sq: Seq<u8>, player: u8, ts: Seq<usize>, kind: u8) -> bool {
    exists|k: int| 0 <= k < ts.len() && enemy(player, sq[ts[k] as int]) && def::kind_of(#[trigger] sq[ts[k] as int]) == kind
}

/// The first occupied square of the ray `ts` holds an enemy piece of kind `kind1` or `kind2`.
pub open spec fn ray_attacked(sq: Seq<u8>, player: u8, ts: Seq<usize>, kind1: u8, kind2: u8) -> bool {
    let b = first_blocker(sq, ts);
    &&& b < ts.len()
    &&& enemy(player, sq[ts[b] as int])
    &&& (def::kind_of(sq[ts[b] as int]) == kind1 || def::kind_of(sq[ts[b] as int]) == kind2)
}

/// An enemy pawn attacks `index`: from the rank in front of it (for `player`), diagonally.
pub open spec fn pawn_attacked(sq: Seq<u8>, player: u8, index: int) -> bool {
    if player == def::PLAYER_W {
        ||| (index % 8 > 0 && index + 7 < 64 && enemy(player, sq[index + 7]) && def::kind_of(sq[index + 7]) == def::KIND_P)
        ||| (index % 8 < 7 && index + 9 < 64 && enemy(player, sq[index + 9]) && def::kind_of(sq[index + 9]) == def::KIND_P)
    } else {
        ||| (index % 8 < 7 && index >= 7 && enemy(player, sq[index - 7]) && def::kind_of(sq[index - 7]) == def::KIND_P)
        ||| (index % 8 > 0 && index >= 9 && enemy(player, sq[index - 9]) && def::kind_of(sq[index - 9]) == def::KIND_P)
    }
}

/// A piece of the side that is not `player` attacks `index`.
pub open spec fn attacked(sq: Seq<u8>, player: u8, index: int) -> bool {
    ||| step_attacked(sq, player, steps(index, n_offsets()), def::KIND_N)
    ||| ray_attacked(sq, player, ray(index, 1, 0), def::KIND_R, def::KIND_Q)
    ||| ray_attacked(sq, player, ray(index, -1, 0), def::KIND_R, def::KIND_Q)
    ||| ray_attacked(sq, player, ray(index, 0, -1), def::KIND_R, def::KIND_Q)
    ||| ray_attacked(sq, player, ray(index, 0, 1), def::KIND_R, def::KIND_Q)
    ||| ray_attacked(sq, player, ray(index, 1, -1), def::KIND_B, def::KIND_Q)
    ||| ray_attacked(sq, player, ray(index, 1, 1), def::KIND_B, def::KIND_Q)
    ||| ray_attacked(sq, player, ray(index, -1, 1), def::KIND_B, def::KIND_Q)
    ||| ray_attacked(sq, player, ray(index, -1, -1), def::KIND_B, def::KIND_Q)
    ||| pawn_attacked(sq, player, index)
    ||| step_attacked(sq, player, steps(index, k_offsets()), def::KIND_K)
}

/// The castling moves open to the side to move: the right is held, king and rook stand on
/// their squares, the squares between that the king and rook land on are empty and the
/// king's square, the square it crosses and its target are not attacked.
pub open spec fn castle_moves(sq: Seq<u8>, player: u8, cas_rights: u8) -> Seq<u32> {
    if player == def::PLAYER_W {
        (if cas_rights & 0b1000 != 0 && sq[4] == def::WK && sq[7] == def::WR && sq[6] == 0 && sq[5] == 0
            && !attacked(sq, player, 6) && !attacked(sq, player, 5) && !attacked(sq, player, 4)
            { seq![enc(4, 6, def::MOV_CAS, 0)] } else { Seq::empty() })
        + (if cas_rights & 0b0100 != 0 && sq[4] == def::WK && sq[0] == def::WR && sq[2] == 0 && sq[3] == 0
            && !attacked(sq, player, 2) && !attacked(sq, player, 3) && !attacked(sq, player, 4)
            { seq![enc(4, 2, def::MOV_CAS, 0)] } else { Seq::empty() })
    } else {
        (if cas_rights & 0b0010 != 0 && sq[60] == def::BK && sq[63] == def::BR && sq[62] == 0 && sq[61] == 0
            && !attacked(sq, player, 62) && !attacked(sq, player, 61) && !attacked(sq, player, 60)
            { seq![enc(60, 62, def::MOV_CAS, 0)] } else { Seq::empty() })
        + (if cas_rights & 0b0001 != 0 && sq[60] == def::BK && sq[56] == def::BR && sq[58] == 0 && sq[59] == 0
            && !attacked(sq, player, 58) && !attacked(sq, player, 59) && !attacked(sq, player, 60)
            { seq![enc(60, 58, def::MOV_CAS, 0)] } else { Seq::empty() })
    }
}

/// Whether some square of `ts` holds an enemy piece of the given kind.
fn step_attack_exec(ts: &Vec<usize>, sq: &[u8; 64], player: u8, kind: u8) -> (r: bool)
    requires
        def::is_player(player),
        forall|k: int| 0 <= k < ts@.len() ==> #[trigger] ts@[k] < 64,
    ensures
        r == step_attacked(sq@, player, ts@, kind),
{
    let mut i: usize = 0;
    while i < ts.len()
        invariant
            i <= ts@.len(),
            def::is_player(player),
            forall|k: int| 0 <= k < ts@.len() ==> #[trigger] ts@[k] < 64,
            forall|k: int| 0 <= k < i ==> !(enemy(player, sq@[ts@[k] as int]) && def::kind_of(#[trigger] sq@[ts@[k] as int]) == kind),
        decreases ts@.len() - i,
    {
        let taken_piece = sq[ts[i]];
        if taken_piece != 0 && !def::on_same_side(player, taken_piece) && taken_piece / 4 == kind {
            return true;
        }
        i = i + 1;
    }
    false
}

/// Whether the first occupied square of the ray `ts` holds an enemy piece of kind `kind1` or `kind2`.
fn ray_attack_exec(ts: &Vec<usize>, sq: &[u8; 64], player: u8, kind1: u8, kind2: u8) -> (r: bool)
    requires
        def::is_player(player),
        forall|k: int| 0 <= k < ts@.len() ==> #[trigger] ts@[k] < 64,
    ensures
        r == ray_attacked(sq@, player, ts@, kind1, kind2),
{
    let mut i: usize = 0;
    while i < ts.len()
        invariant
            i <= ts@.len(),
            def::is_player(player),
            forall|k: int| 0 <= k < ts@.len() ==> #[trigger] ts@[k] < 64,
            forall|k: int| 0 <= k < i ==> sq@[#[trigger] ts@[k] as int] == 0,
        decreases ts@.len() - i,
    {
        let taken_piece = sq[ts[i]];
        if taken_piece != 0 {
            proof {
                lemma_first_blocker(sq@, ts@, i as int);
            }
            if def::on_same_side(player, taken_piece) {
                return false;
            }
            return taken_piece / 4 == kind1 || taken_piece / 4 == kind2;
        }
        i = i + 1;
    }
    proof {
        lemma_first_blocker(sq@, ts@, i as int);
    }
    false
}

impl MoveGenerator {
    fn ray_attack(&self, table: &Vec<Vec<usize>>, dr: Ghost<int>, df: Ghost<int>, sq: &[u8; 64], player: u8,
        index: usize, kind1: u8, kind2: u8) -> (r: bool)
        requires
            def::is_player(player),
            index < 64,
            mov_tbl::is_dir(dr@),
            mov_tbl::is_dir(df@),
            is_table(table@, |f: int| ray(f, dr@, df@)),
        ensures
            r == ray_attacked(sq@, player, ray(index as int, dr@, df@), kind1, kind2),
    {
        proof {
            mov_tbl::lemma_ray_bounded(index as int, dr@, df@);
            assert(table@[index as int]@ == ray(index as int, dr@, df@));
        }
        ray_attack_exec(&table[index], sq, player, kind1, kind2)
    }

    fn attacked_on(&self, sq: &[u8; 64], player: u8, index: usize) -> (r: bool)
        requires
            self.wf(),
            def::is_player(player),
            index < 64,
        ensures
            r == attacked(sq@, player, index as int),
    {
        proof {
            mov_tbl::lemma_steps_on_board(index as int, n_offsets());
            mov_tbl::lemma_steps_on_board(index as int, k_offsets());
            assert(self.n_mov_table@[index as int]@ == steps(index as int, n_offsets()));
            assert(self.k_mov_table@[index as int]@ == steps(index as int, k_offsets()));
        }
        if step_attack_exec(&self.n_mov_table[index], sq, player, def::KIND_N) {
            return true;
        }
        if self.ray_attack(&self.up_mov_table, Ghost(1), Ghost(0), sq, player, index, def::KIND_R, def::KIND_Q) {
            return true;
        }
        if self.ray_attack(&self.down_mov_table, Ghost(-1), Ghost(0), sq, player, index, def::KIND_R, def::KIND_Q) {
            return true;
        }
        if self.ray_attack(&self.left_mov_table, Ghost(0), Ghost(-1), sq, player, index, def::KIND_R, def::KIND_Q) {
            return true;
        }
        if self.ray_attack(&self.right_mov_table, Ghost(0), Ghost(1), sq, player, index, def::KIND_R, def::KIND_Q) {
            return true;
        }
        if self.ray_attack(&self.up_left_mov_table, Ghost(1), Ghost(-1), sq, player, index, def::KIND_B, def::KIND_Q) {
            return true;
        }
        if self.ray_attack(&self.up_right_mov_table, Ghost(1), Ghost(1), sq, player, index, def::KIND_B, def::KIND_Q) {
            return true;
        }
        if self.ray_attack(&self.down_right_mov_table, Ghost(-1), Ghost(1), sq, player, index, def::KIND_B, def::KIND_Q) {
            return true;
        }
        if self.ray_attack(&self.down_left_mov_table, Ghost(-1), Ghost(-1), sq, player, index, def::KIND_B, def::KIND_Q) {
            return true;
        }

        if player == def::PLAYER_W {
            if index % 8 > 0 && index + 7 < 64 {
                let p = sq[index + 7];
                if !def::on_same_side(player, p) && def::is_p(p) {
                    return true;
                }
            }
            if index % 8 < 7 && index + 9 < 64 {
                let p = sq[index + 9];
                if !def::on_same_side(player, p) && def::is_p(p) {
                    return true;
                }
            }
        } else {
            if index % 8 < 7 && index >= 7 {
                let p = sq[index - 7];
                if !def::on_same_side(player, p) && def::is_p(p) {
                    return true;
                }
            }
            if index % 8 > 0 && index >= 9 {
                let p = sq[index - 9];
                if !def::on_same_side(player, p) && def::is_p(p) {
                    return true;
                }
            }
        }

        step_attack_exec(&self.k_mov_table[index], sq, player, def::KIND_K)
    }

    /// Whether a piece of the side not to move attacks `index`.
    pub fn is_under_attack(&self, state: &State, index: usize) -> (r: bool)
        requires
            self.wf(),
            def::is_player(state.player),
            index < 64,
        ensures
            r == attacked(state.squares@, state.player, index as int),
    {
        self.attacked_on(&state.squares, state.player, index)
    }

    /// Whether the king of the side to move is attacked.
    pub fn is_in_check(&self, state: &State) -> (r: bool)
        requires
            self.wf(),
            def::is_player(state.player),
            state.player == def::PLAYER_W ==> state.wk_index < 64,
            state.player == def::PLAYER_B ==> state.bk_index < 64,
        ensures
            r == attacked(state.squares@, state.player,
                (if state.player == def::PLAYER_W { state.wk_index } else { state.bk_index }) as int),
    {
        let k_index = if state.player == def::PLAYER_W {
            state.wk_index
        } else {
            state.bk_index
        };

        self.is_under_attack(state, k_index)
    }

    /// The castling moves open to the side to move.
    pub fn gen_castle_mov_list(&self, state: &State) -> (r: Vec<u32>)
        requires
            self.wf(),
            def::is_player(state.player),
        ensures
            r@ == castle_moves(state.squares@, state.player, state.cas_rights),
    {
        let cas_rights = state.cas_rights;
        let sq = &state.squares;
        let player = state.player;

        let mut mov_list: Vec<u32> = Vec::new();

        if player == def::PLAYER_W {
            if cas_rights & 0b1000 != 0 {
                if sq[4] == def::WK && sq[7] == def::WR && sq[6] == 0 && sq[5] == 0
                    && !self.attacked_on(sq, player, 6) && !self.attacked_on(sq, player, 5)
                    && !self.attacked_on(sq, player, 4) {
                    mov_list.push(encode_u32_mov(4, def::CAS_SQUARE_WK, def::MOV_CAS, 0));
                }
            }
            let ghost first = mov_list@;
            if cas_rights & 0b0100 != 0 {
                if sq[4] == def::WK && sq[0] == def::WR && sq[2] == 0 && sq[3] == 0
                    && !self.attacked_on(sq, player, 2) && !self.attacked_on(sq, player, 3)
                    && !self.attacked_on(sq, player, 4) {
                    mov_list.push(encode_u32_mov(4, def::CAS_SQUARE_WQ, def::MOV_CAS, 0));
                }
            }
        } else {
            if cas_rights & 0b0010 != 0 {
                if sq[60] == def::BK && sq[63] == def::BR && sq[62] == 0 && sq[61] == 0
                    && !self.attacked_on(sq, player, 62) && !self.attacked_on(sq, player, 61)
                    && !self.attacked_on(sq, player, 60) {
                    mov_list.push(encode_u32_mov(60, def::CAS_SQUARE_BK, def::MOV_CAS, 0));
                }
            }
            if cas_rights & 0b0001 != 0 {
                if sq[60] == def::BK && sq[56] == def::BR && sq[58] == 0 && sq[59] == 0
                    && !self.attacked_on(sq, player, 58) && !self.attacked_on(sq, player, 59)
                    && !self.attacked_on(sq, player, 60) {
                    mov_list.push(encode_u32_mov(60, def::CAS_SQUARE_BQ, def::MOV_CAS, 0));
                }
            }
        }
        assert(mov_list@ =~= castle_moves(state.squares@, state.player, state.cas_rights));
        mov_list
    }
}

/// The knights, of either side, on the squares `ts`.
pub open spec fn knight_attackers(sq: Seq<u8>, ts: Seq<usize>) -> Seq<u8>
    decreases ts.len(),
{
    if ts.len() == 0 {
        Seq::empty()
    } else {
        let rest = knight_attackers(sq, ts.drop_last());
        let p = sq[ts.last() as int];
        if p != 0 && def::kind_of(p) == def::KIND_N { rest.push(p) } else { rest }
    }
}

/// The pieces met along the ray `ts` from position `k` on, of either side, that attack back
/// along it: empty squares are passed, pieces of kind `kind` or queens are taken and passed
/// (seen through), a king on the nearest square when `king_near` is taken and passed, and
/// any other piece ends the ray.
pub open spec fn xray_from(sq: Seq<u8>, ts: Seq<usize>, k: int, kind: u8, king_near: bool) -> Seq<u8>
    decreases ts.len() - k,
{
    if k < 0 || k >= ts.len() {
        Seq::empty()
    } else {
        let p = sq[ts[k] as int];
        if p == 0 {
            xray_from(sq, ts, k + 1, kind, king_near)
        } else if king_near && k == 0 && def::kind_of(p) == def::KIND_K {
            seq![p] + xray_from(sq, ts, k + 1, kind, king_near)
        } else if def::kind_of(p) == kind || def::kind_of(p) == def::KIND_Q {
            seq![p] + xray_from(sq, ts, k + 1, kind, king_near)
        } else {
            Seq::empty()
        }
    }
}

/// A pawn of the given code on `t` that attacks, followed by what is seen through it along `ts`.
pub open spec fn pawn_attackers_on(sq: Seq<u8>, cond: bool, t: int, pawn: u8, ts: Seq<usize>) -> Seq<u8> {
    if cond && sq[t] == pawn { seq![pawn] + xray_from(sq, ts, 0, def::KIND_B, false) } else { Seq::empty() }
}

/// All pieces, of both sides, that bear on `index`, in the order they are found:
/// knights, the four diagonals, the four lines, then the pawns.
pub open spec fn attackers(sq: Seq<u8>, index: int) -> Seq<u8> {
    knight_attackers(sq, steps(index, n_offsets()))
    + xray_from(sq, ray(index, 1, -1), 0, def::KIND_B, true)
    + xray_from(sq, ray(index, 1, 1), 0, def::KIND_B, true)
    + xray_from(sq, ray(index, -1, 1), 0, def::KIND_B, true)
    + xray_from(sq, ray(index, -1, -1), 0, def::KIND_B, true)
    + xray_from(sq, ray(index, 1, 0), 0, def::KIND_R, true)
    + xray_from(sq, ray(index, 0, 1), 0, def::KIND_R, true)
    + xray_from(sq, ray(index, -1, 0), 0, def::KIND_R, true)
    + xray_from(sq, ray(index, 0, -1), 0, def::KIND_R, true)
    + pawn_attackers_on(sq, index % 8 > 0 && index + 7 < 64, index + 7, def::BP, ray(index, 1, -1))
    + pawn_attackers_on(sq, index % 8 < 7 && index + 9 < 64, index + 9, def::BP, ray(index, 1, 1))
    + pawn_attackers_on(sq, index % 8 < 7 && index >= 7, index - 7, def::WP, ray(index, -1, 1))
    + pawn_attackers_on(sq, index % 8 > 0 && index >= 9, index - 9, def::WP, ray(index, -1, -1))
}

/// How often `u` occurs in `s`.
pub open spec fn count_of(s: Seq<u8>, u: u8) -> nat
    decreases s.len(),
{
    if s.len() == 0 { 0 } else { count_of(s.drop_last(), u) + (if s.last() == u { 1nat } else { 0nat }) }
}

pub open spec fn is_sorted(s: Seq<u8>) -> bool {
    forall|i: int, j: int| 0 <= i < j < s.len() ==> s[i] <= s[j]
}

/// `w` and `b` are the white and the black pieces of `a` (even and odd codes), each in ascending order.
pub open spec fn sorted_split(a: Seq<u8>, w: Seq<u8>, b: Seq<u8>) -> bool {
    &&& is_sorted(w)
    &&& is_sorted(b)
    &&& forall|u: u8| #[trigger] count_of(w, u) == (if u % 2 == 0 { count_of(a, u) } else { 0 })
    &&& forall|u: u8| #[trigger] count_of(b, u) == (if u % 2 == 1 { count_of(a, u) } else { 0 })
}

fn add_knight_attackers(ts: &Vec<usize>, sq: &[u8; 64], list: &mut Vec<u8>)
    requires
        forall|k: int| 0 <= k < ts@.len() ==> #[trigger] ts@[k] < 64,
    ensures
        final(list)@ == old(list)@ + knight_attackers(sq@, ts@),
{
    let mut i: usize = 0;
    while i < ts.len()
        invariant
            i <= ts@.len(),
            forall|k: int| 0 <= k < ts@.len() ==> #[trigger] ts@[k] < 64,
            list@ == old(list)@ + knight_attackers(sq@, ts@.subrange(0, i as int)),
        decreases ts@.len() - i,
    {
        let p = sq[ts[i]];
        assert(ts@.subrange(0, i + 1).drop_last() =~= ts@.subrange(0, i as int));
        if p != 0 && def::is_n(p) {
            list.push(p);
        }
        i = i + 1;
    }
    assert(ts@.subrange(0, ts@.len() as int) =~= ts@);
}

fn add_xray_attackers(ts: &Vec<usize>, sq: &[u8; 64], kind: u8, king_near: bool, list: &mut Vec<u8>)
    requires
        forall|k: int| 0 <= k < ts@.len() ==> #[trigger] ts@[k] < 64,
    ensures
        final(list)@ == old(list)@ + xray_from(sq@, ts@, 0, kind, king_near),
{
    let mut i: usize = 0;
    let mut direction_mov_count: usize = 0;
    while i < ts.len()
        invariant
            i <= ts@.len(),
            direction_mov_count == i,
            forall|k: int| 0 <= k < ts@.len() ==> #[trigger] ts@[k] < 64,
            list@ + xray_from(sq@, ts@, i as int, kind, king_near) == old(list)@ + xray_from(sq@, ts@, 0, kind, king_near),
        decreases ts@.len() - i,
    {
        direction_mov_count = direction_mov_count + 1;
        let attacker_piece = sq[ts[i]];
        let ghost before = list@;
        if attacker_piece == 0 {
            i = i + 1;
            continue;
        }
        if king_near && direction_mov_count == 1 && def::is_k(attacker_piece) {
            list.push(attacker_piece);
            assert(before + (seq![attacker_piece] + xray_from(sq@, ts@, i + 1, kind, king_near))
                =~= list@ + xray_from(sq@, ts@, i + 1, kind, king_near));
            i = i + 1;
            continue;
        }
        if attacker_piece / 4 == kind || def::is_q(attacker_piece) {
            list.push(attacker_piece);
            assert(before + (seq![attacker_piece] + xray_from(sq@, ts@, i + 1, kind, king_near))
                =~= list@ + xray_from(sq@, ts@, i + 1, kind, king_near));
        } else {
            assert(list@ + Seq::<u8>::empty() =~= list@);
            return;
        }
        i = i + 1;
    }
    assert(list@ + Seq::<u8>::empty() =~= list@);
}

proof fn lemma_count_push(s: Seq<u8>, x: u8, u: u8)
    ensures
        count_of(s.push(x), u) == count_of(s, u) + (if x == u { 1nat } else { 0nat }),
{
    assert(s.push(x).drop_last() =~= s);
}

/// Splits `a` into its white and its black pieces, each sorted in ascending order.
fn sorted_split_by_side(a: &Vec<u8>) -> (r: (Vec<u8>, Vec<u8>))
    ensures
        sorted_split(a@, r.0@, r.1@),
{
    let mut counts: Vec<usize> = Vec::new();
    let mut c: usize = 0;
    while c < 256
        invariant
            c <= 256,
            counts@.len() == c,
            forall|u: int| 0 <= u < c ==> #[trigger] counts@[u] == 0,
        decreases 256 - c,
    {
        counts.push(0);
        c = c + 1;
    }
    let mut i: usize = 0;
    while i < a.len()
        invariant
            i <= a@.len(),
            counts@.len() == 256,
            forall|u: u8| #[trigger] counts@[u as int] == count_of(a@.subrange(0, i as int), u),
            forall|u: u8| #[trigger] count_of(a@.subrange(0, i as int), u) <= i,
        decreases a@.len() - i,
    {
        let x = a[i];
        proof {
            assert(a@.subrange(0, i + 1) =~= a@.subrange(0, i as int).push(x));
            assert forall|u: u8| #[trigger] count_of(a@.subrange(0, i + 1), u)
                == count_of(a@.subrange(0, i as int), u) + (if x == u { 1nat } else { 0nat }) by {
                lemma_count_push(a@.subrange(0, i as int), x, u);
            }
        }
        let old_count = counts[x as usize];
        counts.set(x as usize, old_count + 1);
        i = i + 1;
    }
    assert(a@.subrange(0, a@.len() as int) =~= a@);

    let mut w: Vec<u8> = Vec::new();
    let mut b: Vec<u8> = Vec::new();
    let mut code: usize = 0;
    while code < 256
        invariant
            code <= 256,
            counts@.len() == 256,
            forall|u: u8| #[trigger] counts@[u as int] == count_of(a@, u),
            forall|u: u8| #[trigger] count_of(w@, u) == (if (u as int) < code && u % 2 == 0 { count_of(a@, u) } else { 0 }),
            forall|u: u8| #[trigger] count_of(b@, u) == (if (u as int) < code && u % 2 == 1 { count_of(a@, u) } else { 0 }),
            is_sorted(w@),
            is_sorted(b@),
            forall|k: int| 0 <= k < w@.len() ==> (w@[k] as int) < code,
            forall|k: int| 0 <= k < b@.len() ==> (b@[k] as int) < code,
        decreases 256 - code,
    {
        let n = counts[code];
        let cu = code as u8;
        let mut k: usize = 0;
        let ghost w0 = w@;
        let ghost b0 = b@;
        while k < n
            invariant
                k <= n,
                code < 256,
                cu as int == code,
                is_sorted(w@),
                is_sorted(b@),
                forall|j: int| 0 <= j < w@.len() ==> (w@[j] as int) <= code,
                forall|j: int| 0 <= j < b@.len() ==> (b@[j] as int) <= code,
                cu % 2 == 0 ==> b@ == b0 && forall|u: u8| #[trigger] count_of(w@, u) == count_of(w0, u) + (if u == cu { k as nat } else { 0nat }),
                cu % 2 == 1 ==> w@ == w0 && forall|u: u8| #[trigger] count_of(b@, u) == count_of(b0, u) + (if u == cu { k as nat } else { 0nat }),
                forall|j: int| 0 <= j < w0.len() ==> (w0[j] as int) < code,
                forall|j: int| 0 <= j < b0.len() ==> (b0[j] as int) < code,
            decreases n - k,
        {
            if cu % 2 == 1 {
                let ghost bb = b@;
                b.push(cu);
                proof {
                    assert forall|u: u8| #[trigger] count_of(b@, u) == count_of(b0, u) + (if u == cu { (k + 1) as nat } else { 0nat }) by {
                        lemma_count_push(bb, cu, u);
                    }
                }
            } else {
                let ghost ww = w@;
                w.push(cu);
                proof {
                    assert forall|u: u8| #[trigger] count_of(w@, u) == count_of(w0, u) + (if u == cu { (k + 1) as nat } else { 0nat }) by {
                        lemma_count_push(ww, cu, u);
                    }
                }
            }
            k = k + 1;
        }
        proof {
            assert(n == count_of(a@, cu));
        }
        code = code + 1;
    }
    (w, b)
}

impl MoveGenerator {
    fn add_xray(&self, table: &Vec<Vec<usize>>, dr: Ghost<int>, df: Ghost<int>, sq: &[u8; 64], index: usize,
        kind: u8, king_near: bool, list: &mut Vec<u8>)
        requires
            index < 64,
            mov_tbl::is_dir(dr@),
            mov_tbl::is_dir(df@),
            is_table(table@, |f: int| ray(f, dr@, df@)),
        ensures
            final(list)@ == old(list)@ + xray_from(sq@, ray(index as int, dr@, df@), 0, kind, king_near),
    {
        proof {
            mov_tbl::lemma_ray_bounded(index as int, dr@, df@);
            assert(table@[index as int]@ == ray(index as int, dr@, df@));
        }
        add_xray_attackers(&table[index], sq, kind, king_near, list);
    }

    #[verifier::rlimit(30)]
    fn collect_attackers(&self, sq: &[u8; 64], index: usize) -> (r: Vec<u8>)
        requires
            self.wf(),
            index < 64,
        ensures
            r@ == attackers(sq@, index as int),
    {
        let mut attacker_list: Vec<u8> = Vec::new();
        proof {
            mov_tbl::lemma_steps_on_board(index as int, n_offsets());
            assert(self.n_mov_table@[index as int]@ == steps(index as int, n_offsets()));
        }
        add_knight_attackers(&self.n_mov_table[index], sq, &mut attacker_list);
        self.add_xray(&self.up_left_mov_table, Ghost(1), Ghost(-1), sq, index, def::KIND_B, true, &mut attacker_list);
        self.add_xray(&self.up_right_mov_table, Ghost(1), Ghost(1), sq, index, def::KIND_B, true, &mut attacker_list);
        self.add_xray(&self.down_right_mov_table, Ghost(-1), Ghost(1), sq, index, def::KIND_B, true, &mut attacker_list);
        self.add_xray(&self.down_left_mov_table, Ghost(-1), Ghost(-1), sq, index, def::KIND_B, true, &mut attacker_list);
        self.add_xray(&self.up_mov_table, Ghost(1), Ghost(0), sq, index, def::KIND_R, true, &mut attacker_list);
        self.add_xray(&self.right_mov_table, Ghost(0), Ghost(1), sq, index, def::KIND_R, true, &mut attacker_list);
        self.add_xray(&self.down_mov_table, Ghost(-1), Ghost(0), sq, index, def::KIND_R, true, &mut attacker_list);
        self.add_xray(&self.left_mov_table, Ghost(0), Ghost(-1), sq, index, def::KIND_R, true, &mut attacker_list);
        let ghost lines = attacker_list@;

        if index % 8 > 0 && index + 7 < 64 && sq[index + 7] == def::BP {
            attacker_list.push(def::BP);
            self.add_xray(&self.up_left_mov_table, Ghost(1), Ghost(-1), sq, index, def::KIND_B, false, &mut attacker_list);
        }
        let ghost p1 = attacker_list@;
        if index % 8 < 7 && index + 9 < 64 && sq[index + 9] == def::BP {
            attacker_list.push(def::BP);
            self.add_xray(&self.up_right_mov_table, Ghost(1), Ghost(1), sq, index, def::KIND_B, false, &mut attacker_list);
        }
        let ghost p2 = attacker_list@;
        if index % 8 < 7 && index >= 7 && sq[index - 7] == def::WP {
            attacker_list.push(def::WP);
            self.add_xray(&self.down_right_mov_table, Ghost(-1), Ghost(1), sq, index, def::KIND_B, false, &mut attacker_list);
        }
        let ghost p3 = attacker_list@;
        if index % 8 > 0 && index >= 9 && sq[index - 9] == def::WP {
            attacker_list.push(def::WP);
            self.add_xray(&self.down_left_mov_table, Ghost(-1), Ghost(-1), sq, index, def::KIND_B, false, &mut attacker_list);
        }
        proof {
            let s = sq@;
            let x = index as int;
            assert(p1 =~= lines + pawn_attackers_on(s, x % 8 > 0 && x + 7 < 64, x + 7, def::BP, ray(x, 1, -1)));
            assert(p2 =~= p1 + pawn_attackers_on(s, x % 8 < 7 && x + 9 < 64, x + 9, def::BP, ray(x, 1, 1)));
            assert(p3 =~= p2 + pawn_attackers_on(s, x % 8 < 7 && x >= 7, x - 7, def::WP, ray(x, -1, 1)));
            assert(attacker_list@ =~= p3 + pawn_attackers_on(s, x % 8 > 0 && x >= 9, x - 9, def::WP, ray(x, -1, -1)));
        }
        assert(attacker_list@ =~= attackers(sq@, index as int));
        attacker_list
    }

    /// The pieces of each side that bear on `index` (directly, or through a bishop, rook or
    /// queen of either side in front of them), white ones first, each list in ascending order
    /// of piece code.
    pub fn find_attacker_list(&self, state: &State, index: usize) -> (r: (Vec<u8>, Vec<u8>))
        requires
            self.wf(),
            index < 64,
        ensures
            sorted_split(attackers(state.squares@, index as int), r.0@, r.1@),
    {
        let attacker_list = self.collect_attackers(&state.squares, index);
        sorted_split_by_side(&attacker_list)
    }
}

} // verus!
