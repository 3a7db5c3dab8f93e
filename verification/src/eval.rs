//! The parts of the evaluation that rest on material alone: piece values, game phase, the
//! material score and the material draws.
use vstd::prelude::*;
use crate::bits::has_bit;
use crate::def;
use crate::eval_params::{EvalParams, default_eval_params};
use crate::state::State;
use crate::bitboard::BitBoard;
use crate::features::{features, pieces_upto};
use crate::state::StateModel;
use crate::bitmask::BitMask;
use crate::mov_table::can_probe;

verus! {

pub const MATE_VAL: i32 = 20000;
pub const TERM_VAL: i32 = 10000;

pub const TOTAL_MAIN_PHASE: i32 = 96;
pub const Q_PHASE_WEIGHT: i32 = 16;
pub const R_PHASE_WEIGHT: i32 = 8;
pub const B_PHASE_WEIGHT: i32 = 4;
pub const N_PHASE_WEIGHT: i32 = 4;
pub const TOTAL_PAWN_PHASE: i32 = 16;

pub const BISHOP_KNIGHT_MATE_MIN: i32 = 2;
pub const KNIGHT_MATE_MIN: i32 = 2;

/// The number of squares of `x` below `n`.
pub open spec fn bit_count(x: u64, n: int) -> int
    decreases n,
{
    if n <= 0 { 0 } else { bit_count(x, n - 1) + if has_bit(x, n - 1) { 1int } else { 0 } }
}

/// The number of pieces on a board.
pub open spec fn piece_count(x: u64) -> int {
    bit_count(x, 64)
}

proof fn lemma_bit_count_bound(x: u64, n: int)
    requires
        0 <= n,
    ensures
        0 <= bit_count(x, n) <= n,
    decreases n,
{
    if n > 0 {
        lemma_bit_count_bound(x, n - 1);
    }
}

/// The number of pieces on a board.
pub fn count_pieces(x: u64) -> (r: i32)
    ensures
        r == piece_count(x),
        0 <= r <= 64,
{
    let mut c: i32 = 0;
    let mut i: u64 = 0;
    while i < 64
        invariant
            i <= 64,
            c == bit_count(x, i as int),
            0 <= c <= i,
        decreases 64 - i,
    {
        if (x >> i) & 1 == 1 {
            c = c + 1;
        }
        i = i + 1;
    }
    c
}

/// The game phase by the pieces left: queens weigh 16, rooks 8, bishops and knights 4
/// (96 at the start).
pub open spec fn phase_of(state: State) -> int {
    let bb = state.bitboard;
    (piece_count(bb.w_queen) + piece_count(bb.b_queen)) * Q_PHASE_WEIGHT
    + (piece_count(bb.w_rook) + piece_count(bb.b_rook)) * R_PHASE_WEIGHT
    + (piece_count(bb.w_bishop) + piece_count(bb.b_bishop)) * B_PHASE_WEIGHT
    + (piece_count(bb.w_knight) + piece_count(bb.b_knight)) * N_PHASE_WEIGHT
}

/// The game phase by the pieces left on the board.
pub fn get_phase(state: &State) -> (r: i32)
    ensures
        r == phase_of(*state),
{
    let bitboard = state.bitboard;
    (count_pieces(bitboard.w_queen) + count_pieces(bitboard.b_queen)) * Q_PHASE_WEIGHT
    + (count_pieces(bitboard.w_rook) + count_pieces(bitboard.b_rook)) * R_PHASE_WEIGHT
    + (count_pieces(bitboard.w_bishop) + count_pieces(bitboard.b_bishop)) * B_PHASE_WEIGHT
    + (count_pieces(bitboard.w_knight) + count_pieces(bitboard.b_knight)) * N_PHASE_WEIGHT
}

/// The pawn phase: the number of pawns left (16 at the start).
pub fn get_pawn_phase(state: &State) -> (r: i32)
    ensures
        r == piece_count(state.bitboard.w_pawn) + piece_count(state.bitboard.b_pawn),
{
    count_pieces(state.bitboard.w_pawn) + count_pieces(state.bitboard.b_pawn)
}

/// The counts of positional features of one side.
pub struct FeatureMap {
    pub p_sqr_count: i32,
    pub p_eg_sqr_count: i32,
    pub n_sqr_count: i32,
    pub b_sqr_count: i32,
    pub k_sqr_count: i32,
    pub k_eg_sqr_count: i32,

    pub passer_count: i32,
    pub passer_rank_count: i32,
    pub candidate_passer_count: i32,
    pub candidate_passer_rank_count: i32,

    pub controlled_passer_count: i32,
    pub doubled_pawn_count: i32,
    pub isolated_pawn_count: i32,
    pub behind_pawn_count: i32,

    pub rook_open_count: i32,
    pub rook_semi_open_count: i32,

    pub pin_count: i32,
    pub semi_pin_count: i32,

    pub pk_attack_count: i32,
    pub nk_attack_count: i32,
    pub bk_attack_count: i32,
    pub rk_attack_count: i32,
    pub qk_attack_count: i32,

    pub king_pawn_protection_count: i32,
    pub king_on_open_file_count: i32,
    pub king_on_opponent_semi_open_file_count: i32,
    pub king_on_own_semi_open_file_count: i32,
    pub king_near_open_file_count: i32,
    pub king_near_opponent_semi_open_file_count: i32,
    pub king_near_own_semi_open_file_count: i32,

    pub king_cas_rights_count: i32,
    pub king_caslted_count: i32,

    pub unprotected_sqr_count: i32,
    pub under_attacked_sqr_count: i32,

    pub protected_p_count: i32,
    pub protected_n_count: i32,
    pub protected_b_count: i32,
    pub protected_r_count: i32,

    pub np_protected_3rd_rank_sqr_count: i32,
    pub np_protected_4th_rank_sqr_count: i32,

    pub n_mobility_count: i32,
    pub b_mobility_count: i32,
    pub r_mobility_count: i32,
    pub q_mobility_count: i32,
    pub k_mobility_count: i32,

    pub n_stuck_count: i32,
    pub b_stuck_count: i32,
    pub r_stuck_count: i32,
    pub q_stuck_count: i32,
}

impl FeatureMap {
    /// A map with every count zero.
    pub fn empty() -> (r: Self)
        ensures
            r == (FeatureMap {
                p_sqr_count: 0,
                p_eg_sqr_count: 0,
                n_sqr_count: 0,
                b_sqr_count: 0,
                k_sqr_count: 0,
                k_eg_sqr_count: 0,

                passer_count: 0,
                passer_rank_count: 0,
                candidate_passer_count: 0,
                candidate_passer_rank_count: 0,

                controlled_passer_count: 0,
                doubled_pawn_count: 0,
                isolated_pawn_count: 0,
                behind_pawn_count: 0,

                rook_open_count: 0,
                rook_semi_open_count: 0,

                pin_count: 0,
                semi_pin_count: 0,

                pk_attack_count: 0,
                nk_attack_count: 0,
                bk_attack_count: 0,
                rk_attack_count: 0,
                qk_attack_count: 0,

                king_pawn_protection_count: 0,
                king_on_open_file_count: 0,
                king_on_opponent_semi_open_file_count: 0,
                king_on_own_semi_open_file_count: 0,
                king_near_open_file_count: 0,
                king_near_opponent_semi_open_file_count: 0,
                king_near_own_semi_open_file_count: 0,

                king_cas_rights_count: 0,
                king_caslted_count: 0,

                unprotected_sqr_count: 0,
                under_attacked_sqr_count: 0,

                protected_p_count: 0,
                protected_n_count: 0,
                protected_b_count: 0,
                protected_r_count: 0,

                np_protected_3rd_rank_sqr_count: 0,
                np_protected_4th_rank_sqr_count: 0,

                n_mobility_count: 0,
                b_mobility_count: 0,
                r_mobility_count: 0,
                q_mobility_count: 0,
                k_mobility_count: 0,

                n_stuck_count: 0,
                b_stuck_count: 0,
                r_stuck_count: 0,
                q_stuck_count: 0,
            }),
    {
        FeatureMap {
            p_sqr_count: 0,
            p_eg_sqr_count: 0,
            n_sqr_count: 0,
            b_sqr_count: 0,
            k_sqr_count: 0,
            k_eg_sqr_count: 0,

            passer_count: 0,
            passer_rank_count: 0,
            candidate_passer_count: 0,
            candidate_passer_rank_count: 0,

            controlled_passer_count: 0,
            doubled_pawn_count: 0,
            isolated_pawn_count: 0,
            behind_pawn_count: 0,

            rook_open_count: 0,
            rook_semi_open_count: 0,

            pin_count: 0,
            semi_pin_count: 0,

            pk_attack_count: 0,
            nk_attack_count: 0,
            bk_attack_count: 0,
            rk_attack_count: 0,
            qk_attack_count: 0,

            king_pawn_protection_count: 0,
            king_on_open_file_count: 0,
            king_on_opponent_semi_open_file_count: 0,
            king_on_own_semi_open_file_count: 0,
            king_near_open_file_count: 0,
            king_near_opponent_semi_open_file_count: 0,
            king_near_own_semi_open_file_count: 0,

            king_cas_rights_count: 0,
            king_caslted_count: 0,

            unprotected_sqr_count: 0,
            under_attacked_sqr_count: 0,

            protected_p_count: 0,
            protected_n_count: 0,
            protected_b_count: 0,
            protected_r_count: 0,

            np_protected_3rd_rank_sqr_count: 0,
            np_protected_4th_rank_sqr_count: 0,

            n_mobility_count: 0,
            b_mobility_count: 0,
            r_mobility_count: 0,
            q_mobility_count: 0,
            k_mobility_count: 0,

            n_stuck_count: 0,
            b_stuck_count: 0,
            r_stuck_count: 0,
            q_stuck_count: 0,
        }
    }
}

/// The value of a piece code under `params`: the mate value for kings, the parameter of
/// its kind otherwise, 0 for anything else.
pub open spec fn value_of(params: EvalParams, piece: u8) -> i32 {
    if piece == def::WK || piece == def::BK { MATE_VAL }
    else if piece == def::WQ || piece == def::BQ { params.q_val }
    else if piece == def::WR || piece == def::BR { params.r_val }
    else if piece == def::WB || piece == def::BB { params.b_val }
    else if piece == def::WN || piece == def::BN { params.n_val }
    else if piece == def::WP || piece == def::BP { params.p_val }
    else { 0 }
}

/// No side has mating material left: no pawns, rooks or queens, and either each side has at
/// most one minor piece, or one side has nothing but its king and the other at most one
/// knight and no bishop.
pub open spec fn material_draw(state: State) -> bool {
    let bb = state.bitboard;
    &&& bb.w_pawn | bb.b_pawn | bb.w_rook | bb.b_rook | bb.w_queen | bb.b_queen == 0
    &&& {
        ||| (piece_count(bb.w_bishop) + piece_count(bb.w_knight) < BISHOP_KNIGHT_MATE_MIN
            && piece_count(bb.b_bishop) + piece_count(bb.b_knight) < BISHOP_KNIGHT_MATE_MIN)
        ||| ((bb.w_bishop | bb.w_knight) == 0 && bb.b_bishop == 0 && piece_count(bb.b_knight) < KNIGHT_MATE_MIN)
        ||| ((bb.b_bishop | bb.b_knight) == 0 && bb.w_bishop == 0 && piece_count(bb.w_knight) < KNIGHT_MATE_MIN)
    }
}

pub struct Evaluator {
    pub params: EvalParams,
}

impl Evaluator {
    pub fn new() -> (r: Self)
        ensures
            r.params == default_eval_params(),
    {
        Evaluator { params: EvalParams::default() }
    }

    /// Replaces the parameters.
    pub fn set_params(&mut self, params: EvalParams)
        ensures
            final(self).params == params,
    {
        self.params = params;
    }

    pub fn val_of(&self, piece: u8) -> (r: i32)
        ensures
            r == value_of(self.params, piece),
    {
        match piece {
            0 => 0,
            def::WK => MATE_VAL,
            def::WQ => self.params.q_val,
            def::WR => self.params.r_val,
            def::WB => self.params.b_val,
            def::WN => self.params.n_val,
            def::WP => self.params.p_val,

            def::BK => MATE_VAL,
            def::BQ => self.params.q_val,
            def::BR => self.params.r_val,
            def::BB => self.params.b_val,
            def::BN => self.params.n_val,
            def::BP => self.params.p_val,

            _ => 0,
        }
    }

    pub fn is_material_draw(&self, state: &State) -> (r: bool)
        ensures
            r == material_draw(*state),
    {
        let bitboard = state.bitboard;

        if bitboard.w_pawn | bitboard.b_pawn | bitboard.w_rook | bitboard.b_rook | bitboard.w_queen | bitboard.b_queen == 0 {
            let wb_count = count_pieces(bitboard.w_bishop);
            let wn_count = count_pieces(bitboard.w_knight);
            let bb_count = count_pieces(bitboard.b_bishop);
            let bn_count = count_pieces(bitboard.b_knight);

            if wb_count + wn_count < BISHOP_KNIGHT_MATE_MIN && bb_count + bn_count < BISHOP_KNIGHT_MATE_MIN {
                return true;
            }

            if (bitboard.w_bishop | bitboard.w_knight) == 0 && bitboard.b_bishop == 0 && bn_count < KNIGHT_MATE_MIN {
                return true;
            }

            if (bitboard.b_bishop | bitboard.b_knight) == 0 && bitboard.w_bishop == 0 && wn_count < KNIGHT_MATE_MIN {
                return true;
            }
        }

        false
    }
}

/// A value within `i32`.
pub open spec fn fits(x: int) -> bool {
    i32::MIN <= x <= i32::MAX
}

/// Division that rounds toward zero, as integer division does.
pub open spec fn trunc_div(a: int, b: int) -> int {
    if a >= 0 { a / b } else { -((-a) / b) }
}

/// White's number of pieces of a kind less black's.
pub open spec fn count_diff(w: u64, b: u64) -> int {
    piece_count(w) - piece_count(b)
}

/// The terms of a material sum: the count differences of queens, rooks, bishops, knights
/// and pawns, each times its value.
pub open spec fn material_terms(bb: BitBoard, q: i32, r: i32, b: i32, n: i32, p: i32) -> Seq<int> {
    seq![
        count_diff(bb.w_queen, bb.b_queen) * q,
        count_diff(bb.w_rook, bb.b_rook) * r,
        count_diff(bb.w_bishop, bb.b_bishop) * b,
        count_diff(bb.w_knight, bb.b_knight) * n,
        count_diff(bb.w_pawn, bb.b_pawn) * p,
    ]
}

/// The material sum: its five terms added.
pub open spec fn material_sum(bb: BitBoard, q: i32, r: i32, b: i32, n: i32, p: i32) -> int {
    let t = material_terms(bb, q, r, b, n, p);
    t[0] + t[1] + t[2] + t[3] + t[4]
}

/// Every term of the material sum, and every sum of its first terms, fits in `i32`.
pub open spec fn material_sum_fits(bb: BitBoard, q: i32, r: i32, b: i32, n: i32, p: i32) -> bool {
    let t = material_terms(bb, q, r, b, n, p);
    &&& fits(t[0]) && fits(t[1]) && fits(t[2]) && fits(t[3]) && fits(t[4])
    &&& fits(t[0] + t[1]) && fits(t[0] + t[1] + t[2]) && fits(t[0] + t[1] + t[2] + t[3])
    &&& fits(t[0] + t[1] + t[2] + t[3] + t[4])
}

/// The pawn phase of a position: the number of pawns left.
pub open spec fn pawn_phase_of(state: State) -> int {
    piece_count(state.bitboard.w_pawn) + piece_count(state.bitboard.b_pawn)
}

/// The material score from white's side: the base values of the pieces, plus their
/// middle-game values scaled by the game phase and their pawn-phase values scaled by the
/// pawn phase.
pub open spec fn material_value(params: EvalParams, state: State) -> int {
    let bb = state.bitboard;
    material_sum(bb, params.q_val, params.r_val, params.b_val, params.n_val, params.p_val)
        + trunc_div(material_sum(bb, params.mp_q_val, params.mp_r_val, params.mp_b_val, params.mp_n_val, params.mp_p_val)
            * phase_of(state), TOTAL_MAIN_PHASE as int)
        + trunc_div(material_sum(bb, params.pp_q_val, params.pp_r_val, params.pp_b_val, params.pp_n_val, params.pp_p_val)
            * pawn_phase_of(state), TOTAL_PAWN_PHASE as int)
}

/// The material score can be computed in `i32`: each sum and product on the way fits.
pub open spec fn material_fits(params: EvalParams, state: State) -> bool {
    let bb = state.bitboard;
    let base = material_sum(bb, params.q_val, params.r_val, params.b_val, params.n_val, params.p_val);
    let mp = material_sum(bb, params.mp_q_val, params.mp_r_val, params.mp_b_val, params.mp_n_val, params.mp_p_val);
    let pp = material_sum(bb, params.pp_q_val, params.pp_r_val, params.pp_b_val, params.pp_n_val, params.pp_p_val);
    &&& material_sum_fits(bb, params.q_val, params.r_val, params.b_val, params.n_val, params.p_val)
    &&& material_sum_fits(bb, params.mp_q_val, params.mp_r_val, params.mp_b_val, params.mp_n_val, params.mp_p_val)
    &&& material_sum_fits(bb, params.pp_q_val, params.pp_r_val, params.pp_b_val, params.pp_n_val, params.pp_p_val)
    &&& fits(phase_of(state))
    &&& fits(mp * phase_of(state))
    &&& fits(pp * pawn_phase_of(state))
    &&& fits(base + trunc_div(mp * phase_of(state), TOTAL_MAIN_PHASE as int))
    &&& fits(material_value(params, state))
}

/// The material sum of a position for one set of piece values.
fn sum_materials(bb: &BitBoard, q: i32, r: i32, b: i32, n: i32, p: i32) -> (s: i32)
    requires
        material_sum_fits(*bb, q, r, b, n, p),
    ensures
        s == material_sum(*bb, q, r, b, n, p),
{
    let dq = count_pieces(bb.w_queen) - count_pieces(bb.b_queen);
    let dr = count_pieces(bb.w_rook) - count_pieces(bb.b_rook);
    let db = count_pieces(bb.w_bishop) - count_pieces(bb.b_bishop);
    let dn = count_pieces(bb.w_knight) - count_pieces(bb.b_knight);
    let dp = count_pieces(bb.w_pawn) - count_pieces(bb.b_pawn);
    dq * q + dr * r + db * b + dn * n + dp * p
}

impl Evaluator {
    /// The material score from white's side (see `material_value`).
    pub fn eval_materials(&self, state: &State) -> (r: i32)
        requires
            material_fits(self.params, *state),
        ensures
            r == material_value(self.params, *state),
    {
        let bitboard = state.bitboard;
        let material_base_score = sum_materials(&bitboard, self.params.q_val, self.params.r_val,
            self.params.b_val, self.params.n_val, self.params.p_val);
        let material_mp_score = sum_materials(&bitboard, self.params.mp_q_val, self.params.mp_r_val,
            self.params.mp_b_val, self.params.mp_n_val, self.params.mp_p_val);
        let material_pp_score = sum_materials(&bitboard, self.params.pp_q_val, self.params.pp_r_val,
            self.params.pp_b_val, self.params.pp_n_val, self.params.pp_p_val);

        let main_phase = get_phase(state);
        let pawn_phase = get_pawn_phase(state);

        material_base_score
            + material_mp_score * main_phase / TOTAL_MAIN_PHASE
            + material_pp_score * pawn_phase / TOTAL_PAWN_PHASE
    }
}

/// The sign that turns a score from white's side into one from the side to move's.
pub fn get_score_sign(state: &State) -> (r: i32)
    ensures
        r == (if state.player == def::PLAYER_W { 1i32 } else { -1i32 }),
{
    if state.player == def::PLAYER_W {
        1
    } else {
        -1
    }
}


/// The sum of the products of the first `n` entries of `a` and `b`, added in order.
pub open spec fn dot(a: Seq<i32>, b: Seq<i32>, n: int) -> int
    decreases n,
{
    if n <= 0 { 0 } else { dot(a, b, n - 1) + a[n - 1] * b[n - 1] }
}

/// `start` plus `d`, or less it with `minus`.
pub open spec fn apply(start: int, d: int, minus: bool) -> int {
    if minus { start - d } else { start + d }
}

/// Adding (or, with `minus`, taking away) the products of `a` and `b` one by one from
/// `start` stays within `i32`, each product too.
pub open spec fn dot_fits(start: int, a: Seq<i32>, b: Seq<i32>, minus: bool) -> bool {
    &&& forall|k: int| 0 <= k < a.len() ==> fits(#[trigger] (a[k] * b[k]))
    &&& forall|k: int| 0 <= k <= a.len() ==> fits(apply(start, #[trigger] dot(a, b, k), minus))
}

/// `start` plus (or, with `minus`, less) the products of `a` and `b`, added in order.
fn add_products(start: i32, a: &Vec<i32>, b: &Vec<i32>, minus: bool) -> (r: i32)
    requires
        a@.len() == b@.len(),
        dot_fits(start as int, a@, b@, minus),
    ensures
        r == apply(start as int, dot(a@, b@, a@.len() as int), minus),
{
    let mut sum = start;
    let mut k: usize = 0;
    while k < a.len()
        invariant
            k <= a@.len(),
            a@.len() == b@.len(),
            dot_fits(start as int, a@, b@, minus),
            sum == apply(start as int, dot(a@, b@, k as int), minus),
        decreases a@.len() - k,
    {
        assert(fits(a@[k as int] * b@[k as int]));
        assert(fits(apply(start as int, dot(a@, b@, k + 1), minus)));
        let prod = a[k] * b[k];
        if minus {
            sum = sum - prod;
        } else {
            sum = sum + prod;
        }
        k = k + 1;
    }
    sum
}

/// The feature counts weighed in the `mp` part of the positional score.
pub open spec fn mp_counts(f: FeatureMap) -> Seq<i32> {
    seq![f.p_sqr_count, f.p_eg_sqr_count, f.n_sqr_count, f.b_sqr_count, f.k_sqr_count, f.k_eg_sqr_count, f.pin_count, f.semi_pin_count, f.rook_open_count, f.rook_semi_open_count, f.king_pawn_protection_count, f.king_on_open_file_count, f.king_on_opponent_semi_open_file_count, f.king_on_own_semi_open_file_count, f.king_near_open_file_count, f.king_near_opponent_semi_open_file_count, f.king_near_own_semi_open_file_count, f.king_cas_rights_count, f.king_caslted_count, f.pk_attack_count, f.nk_attack_count, f.bk_attack_count, f.rk_attack_count, f.qk_attack_count, f.protected_p_count, f.protected_n_count, f.protected_b_count, f.protected_r_count, f.np_protected_3rd_rank_sqr_count, f.np_protected_4th_rank_sqr_count, f.behind_pawn_count, f.isolated_pawn_count, f.doubled_pawn_count, f.passer_count, f.passer_rank_count, f.candidate_passer_count, f.candidate_passer_rank_count, f.unprotected_sqr_count, f.under_attacked_sqr_count, f.n_mobility_count, f.b_mobility_count, f.r_mobility_count, f.q_mobility_count, f.k_mobility_count, f.n_stuck_count, f.b_stuck_count, f.r_stuck_count, f.q_stuck_count]
}

/// The weights of the `mp` part of the positional score.
pub open spec fn mp_weights(p: EvalParams) -> Seq<i32> {
    seq![p.mp_p_sqr_base_val, p.mp_p_eg_sqr_base_val, p.mp_n_sqr_base_val, p.mp_b_sqr_base_val, p.mp_k_sqr_base_val, p.mp_k_eg_sqr_base_val, p.mp_pin_val, p.mp_semi_pin_val, p.mp_rook_open_val, p.mp_rook_semi_open_val, p.mp_king_pawn_protection_val, p.mp_king_on_open_file_val, p.mp_king_on_opponent_semi_open_file_val, p.mp_king_on_own_semi_open_file_val, p.mp_king_near_open_file_val, p.mp_king_near_opponent_semi_open_file_val, p.mp_king_near_own_semi_open_file_val, p.mp_king_cas_rights_val, p.mp_king_castled_val, p.mp_pk_attack_val, p.mp_nk_attack_val, p.mp_bk_attack_val, p.mp_rk_attack_val, p.mp_qk_attack_val, p.mp_protected_p_val, p.mp_protected_n_val, p.mp_protected_b_val, p.mp_protected_r_val, p.mp_np_protected_3rd_rank_sqr_val, p.mp_np_protected_4th_rank_sqr_val, p.mp_behind_pawn_val, p.mp_isolated_pawn_val, p.mp_doubled_pawn_val, p.mp_passer_base_val, p.mp_passer_rank_val, p.mp_candidate_passer_base_val, p.mp_candidate_passer_rank_val, p.mp_unprotected_sqr_val, p.mp_under_attacked_sqr_val, p.mp_n_mob_base_val, p.mp_b_mob_base_val, p.mp_r_mob_base_val, p.mp_q_mob_base_val, p.mp_k_mob_base_val, p.mp_n_stuck_val, p.mp_b_stuck_val, p.mp_r_stuck_val, p.mp_q_stuck_val]
}

fn mp_count_vec(f: &FeatureMap) -> (r: Vec<i32>)
    ensures
        r@ == mp_counts(*f),
{
    let r = vec![f.p_sqr_count, f.p_eg_sqr_count, f.n_sqr_count, f.b_sqr_count, f.k_sqr_count, f.k_eg_sqr_count, f.pin_count, f.semi_pin_count, f.rook_open_count, f.rook_semi_open_count, f.king_pawn_protection_count, f.king_on_open_file_count, f.king_on_opponent_semi_open_file_count, f.king_on_own_semi_open_file_count, f.king_near_open_file_count, f.king_near_opponent_semi_open_file_count, f.king_near_own_semi_open_file_count, f.king_cas_rights_count, f.king_caslted_count, f.pk_attack_count, f.nk_attack_count, f.bk_attack_count, f.rk_attack_count, f.qk_attack_count, f.protected_p_count, f.protected_n_count, f.protected_b_count, f.protected_r_count, f.np_protected_3rd_rank_sqr_count, f.np_protected_4th_rank_sqr_count, f.behind_pawn_count, f.isolated_pawn_count, f.doubled_pawn_count, f.passer_count, f.passer_rank_count, f.candidate_passer_count, f.candidate_passer_rank_count, f.unprotected_sqr_count, f.under_attacked_sqr_count, f.n_mobility_count, f.b_mobility_count, f.r_mobility_count, f.q_mobility_count, f.k_mobility_count, f.n_stuck_count, f.b_stuck_count, f.r_stuck_count, f.q_stuck_count];
    assert(r@ =~= mp_counts(*f));
    r
}

fn mp_weight_vec(p: &EvalParams) -> (r: Vec<i32>)
    ensures
        r@ == mp_weights(*p),
{
    let r = vec![p.mp_p_sqr_base_val, p.mp_p_eg_sqr_base_val, p.mp_n_sqr_base_val, p.mp_b_sqr_base_val, p.mp_k_sqr_base_val, p.mp_k_eg_sqr_base_val, p.mp_pin_val, p.mp_semi_pin_val, p.mp_rook_open_val, p.mp_rook_semi_open_val, p.mp_king_pawn_protection_val, p.mp_king_on_open_file_val, p.mp_king_on_opponent_semi_open_file_val, p.mp_king_on_own_semi_open_file_val, p.mp_king_near_open_file_val, p.mp_king_near_opponent_semi_open_file_val, p.mp_king_near_own_semi_open_file_val, p.mp_king_cas_rights_val, p.mp_king_castled_val, p.mp_pk_attack_val, p.mp_nk_attack_val, p.mp_bk_attack_val, p.mp_rk_attack_val, p.mp_qk_attack_val, p.mp_protected_p_val, p.mp_protected_n_val, p.mp_protected_b_val, p.mp_protected_r_val, p.mp_np_protected_3rd_rank_sqr_val, p.mp_np_protected_4th_rank_sqr_val, p.mp_behind_pawn_val, p.mp_isolated_pawn_val, p.mp_doubled_pawn_val, p.mp_passer_base_val, p.mp_passer_rank_val, p.mp_candidate_passer_base_val, p.mp_candidate_passer_rank_val, p.mp_unprotected_sqr_val, p.mp_under_attacked_sqr_val, p.mp_n_mob_base_val, p.mp_b_mob_base_val, p.mp_r_mob_base_val, p.mp_q_mob_base_val, p.mp_k_mob_base_val, p.mp_n_stuck_val, p.mp_b_stuck_val, p.mp_r_stuck_val, p.mp_q_stuck_val];
    assert(r@ =~= mp_weights(*p));
    r
}

/// The feature counts weighed in the `pp` part of the positional score.
pub open spec fn pp_counts(f: FeatureMap) -> Seq<i32> {
    seq![f.p_sqr_count, f.p_eg_sqr_count, f.n_sqr_count, f.b_sqr_count, f.k_sqr_count, f.k_eg_sqr_count, f.pin_count, f.semi_pin_count, f.rook_open_count, f.rook_semi_open_count, f.king_cas_rights_count, f.king_caslted_count, f.pk_attack_count, f.nk_attack_count, f.bk_attack_count, f.rk_attack_count, f.qk_attack_count, f.protected_p_count, f.protected_n_count, f.protected_b_count, f.protected_r_count, f.np_protected_3rd_rank_sqr_count, f.np_protected_4th_rank_sqr_count, f.behind_pawn_count, f.isolated_pawn_count, f.doubled_pawn_count, f.passer_count, f.passer_rank_count, f.candidate_passer_count, f.candidate_passer_rank_count, f.unprotected_sqr_count, f.under_attacked_sqr_count, f.n_mobility_count, f.b_mobility_count, f.r_mobility_count, f.q_mobility_count, f.k_mobility_count, f.n_stuck_count, f.b_stuck_count, f.r_stuck_count, f.q_stuck_count]
}

/// The weights of the `pp` part of the positional score.
pub open spec fn pp_weights(p: EvalParams) -> Seq<i32> {
    seq![p.pp_p_sqr_base_val, p.pp_p_eg_sqr_base_val, p.pp_n_sqr_base_val, p.pp_b_sqr_base_val, p.pp_k_sqr_base_val, p.pp_k_eg_sqr_base_val, p.pp_pin_val, p.pp_semi_pin_val, p.pp_rook_open_val, p.pp_rook_semi_open_val, p.pp_king_cas_rights_val, p.pp_king_castled_val, p.pp_pk_attack_val, p.pp_nk_attack_val, p.pp_bk_attack_val, p.pp_rk_attack_val, p.pp_qk_attack_val, p.pp_protected_p_val, p.pp_protected_n_val, p.pp_protected_b_val, p.pp_protected_r_val, p.pp_np_protected_3rd_rank_sqr_val, p.pp_np_protected_4th_rank_sqr_val, p.pp_behind_pawn_val, p.pp_isolated_pawn_val, p.pp_doubled_pawn_val, p.pp_passer_base_val, p.pp_passer_rank_val, p.pp_candidate_passer_base_val, p.pp_candidate_passer_rank_val, p.pp_unprotected_sqr_val, p.pp_under_attacked_sqr_val, p.pp_n_mob_base_val, p.pp_b_mob_base_val, p.pp_r_mob_base_val, p.pp_q_mob_base_val, p.pp_k_mob_base_val, p.pp_n_stuck_val, p.pp_b_stuck_val, p.pp_r_stuck_val, p.pp_q_stuck_val]
}

fn pp_count_vec(f: &FeatureMap) -> (r: Vec<i32>)
    ensures
        r@ == pp_counts(*f),
{
    let r = vec![f.p_sqr_count, f.p_eg_sqr_count, f.n_sqr_count, f.b_sqr_count, f.k_sqr_count, f.k_eg_sqr_count, f.pin_count, f.semi_pin_count, f.rook_open_count, f.rook_semi_open_count, f.king_cas_rights_count, f.king_caslted_count, f.pk_attack_count, f.nk_attack_count, f.bk_attack_count, f.rk_attack_count, f.qk_attack_count, f.protected_p_count, f.protected_n_count, f.protected_b_count, f.protected_r_count, f.np_protected_3rd_rank_sqr_count, f.np_protected_4th_rank_sqr_count, f.behind_pawn_count, f.isolated_pawn_count, f.doubled_pawn_count, f.passer_count, f.passer_rank_count, f.candidate_passer_count, f.candidate_passer_rank_count, f.unprotected_sqr_count, f.under_attacked_sqr_count, f.n_mobility_count, f.b_mobility_count, f.r_mobility_count, f.q_mobility_count, f.k_mobility_count, f.n_stuck_count, f.b_stuck_count, f.r_stuck_count, f.q_stuck_count];
    assert(r@ =~= pp_counts(*f));
    r
}

fn pp_weight_vec(p: &EvalParams) -> (r: Vec<i32>)
    ensures
        r@ == pp_weights(*p),
{
    let r = vec![p.pp_p_sqr_base_val, p.pp_p_eg_sqr_base_val, p.pp_n_sqr_base_val, p.pp_b_sqr_base_val, p.pp_k_sqr_base_val, p.pp_k_eg_sqr_base_val, p.pp_pin_val, p.pp_semi_pin_val, p.pp_rook_open_val, p.pp_rook_semi_open_val, p.pp_king_cas_rights_val, p.pp_king_castled_val, p.pp_pk_attack_val, p.pp_nk_attack_val, p.pp_bk_attack_val, p.pp_rk_attack_val, p.pp_qk_attack_val, p.pp_protected_p_val, p.pp_protected_n_val, p.pp_protected_b_val, p.pp_protected_r_val, p.pp_np_protected_3rd_rank_sqr_val, p.pp_np_protected_4th_rank_sqr_val, p.pp_behind_pawn_val, p.pp_isolated_pawn_val, p.pp_doubled_pawn_val, p.pp_passer_base_val, p.pp_passer_rank_val, p.pp_candidate_passer_base_val, p.pp_candidate_passer_rank_val, p.pp_unprotected_sqr_val, p.pp_under_attacked_sqr_val, p.pp_n_mob_base_val, p.pp_b_mob_base_val, p.pp_r_mob_base_val, p.pp_q_mob_base_val, p.pp_k_mob_base_val, p.pp_n_stuck_val, p.pp_b_stuck_val, p.pp_r_stuck_val, p.pp_q_stuck_val];
    assert(r@ =~= pp_weights(*p));
    r
}

/// The feature counts weighed in the `rmp` part of the positional score.
pub open spec fn rmp_counts(f: FeatureMap) -> Seq<i32> {
    seq![f.behind_pawn_count, f.isolated_pawn_count, f.doubled_pawn_count, f.passer_count, f.passer_rank_count, f.candidate_passer_count, f.candidate_passer_rank_count, f.king_cas_rights_count, f.king_caslted_count, f.n_mobility_count, f.b_mobility_count, f.r_mobility_count, f.q_mobility_count, f.k_mobility_count]
}

/// The weights of the `rmp` part of the positional score.
pub open spec fn rmp_weights(p: EvalParams) -> Seq<i32> {
    seq![p.rmp_behind_pawn_val, p.rmp_isolated_pawn_val, p.rmp_doubled_pawn_val, p.rmp_passer_base_val, p.rmp_passer_rank_val, p.rmp_candidate_passer_base_val, p.rmp_candidate_passer_rank_val, p.rmp_king_cas_rights_val, p.rmp_king_castled_val, p.rmp_n_mob_base_val, p.rmp_b_mob_base_val, p.rmp_r_mob_base_val, p.rmp_q_mob_base_val, p.rmp_k_mob_base_val]
}

fn rmp_count_vec(f: &FeatureMap) -> (r: Vec<i32>)
    ensures
        r@ == rmp_counts(*f),
{
    let r = vec![f.behind_pawn_count, f.isolated_pawn_count, f.doubled_pawn_count, f.passer_count, f.passer_rank_count, f.candidate_passer_count, f.candidate_passer_rank_count, f.king_cas_rights_count, f.king_caslted_count, f.n_mobility_count, f.b_mobility_count, f.r_mobility_count, f.q_mobility_count, f.k_mobility_count];
    assert(r@ =~= rmp_counts(*f));
    r
}

fn rmp_weight_vec(p: &EvalParams) -> (r: Vec<i32>)
    ensures
        r@ == rmp_weights(*p),
{
    let r = vec![p.rmp_behind_pawn_val, p.rmp_isolated_pawn_val, p.rmp_doubled_pawn_val, p.rmp_passer_base_val, p.rmp_passer_rank_val, p.rmp_candidate_passer_base_val, p.rmp_candidate_passer_rank_val, p.rmp_king_cas_rights_val, p.rmp_king_castled_val, p.rmp_n_mob_base_val, p.rmp_b_mob_base_val, p.rmp_r_mob_base_val, p.rmp_q_mob_base_val, p.rmp_k_mob_base_val];
    assert(r@ =~= rmp_weights(*p));
    r
}

/// The feature counts weighed in the `rpp` part of the positional score.
pub open spec fn rpp_counts(f: FeatureMap) -> Seq<i32> {
    seq![f.behind_pawn_count, f.isolated_pawn_count, f.doubled_pawn_count, f.passer_count, f.passer_rank_count, f.candidate_passer_count, f.candidate_passer_rank_count, f.king_caslted_count, f.n_mobility_count, f.b_mobility_count, f.r_mobility_count, f.q_mobility_count, f.k_mobility_count]
}

/// The weights of the `rpp` part of the positional score.
pub open spec fn rpp_weights(p: EvalParams) -> Seq<i32> {
    seq![p.rpp_behind_pawn_val, p.rpp_isolated_pawn_val, p.rpp_doubled_pawn_val, p.rpp_passer_base_val, p.rpp_passer_rank_val, p.rpp_candidate_passer_base_val, p.rpp_candidate_passer_rank_val, p.rpp_king_castled_val, p.rpp_n_mob_base_val, p.rpp_b_mob_base_val, p.rpp_r_mob_base_val, p.rpp_q_mob_base_val, p.rpp_k_mob_base_val]
}

fn rpp_count_vec(f: &FeatureMap) -> (r: Vec<i32>)
    ensures
        r@ == rpp_counts(*f),
{
    let r = vec![f.behind_pawn_count, f.isolated_pawn_count, f.doubled_pawn_count, f.passer_count, f.passer_rank_count, f.candidate_passer_count, f.candidate_passer_rank_count, f.king_caslted_count, f.n_mobility_count, f.b_mobility_count, f.r_mobility_count, f.q_mobility_count, f.k_mobility_count];
    assert(r@ =~= rpp_counts(*f));
    r
}

fn rpp_weight_vec(p: &EvalParams) -> (r: Vec<i32>)
    ensures
        r@ == rpp_weights(*p),
{
    let r = vec![p.rpp_behind_pawn_val, p.rpp_isolated_pawn_val, p.rpp_doubled_pawn_val, p.rpp_passer_base_val, p.rpp_passer_rank_val, p.rpp_candidate_passer_base_val, p.rpp_candidate_passer_rank_val, p.rpp_king_castled_val, p.rpp_n_mob_base_val, p.rpp_b_mob_base_val, p.rpp_r_mob_base_val, p.rpp_q_mob_base_val, p.rpp_k_mob_base_val];
    assert(r@ =~= rpp_weights(*p));
    r
}

/// A part of the positional score: white's weighted counts less black's.
pub open spec fn pos_part(wc: Seq<i32>, bc: Seq<i32>, wt: Seq<i32>) -> int {
    dot(wc, wt, wt.len() as int) - dot(bc, wt, wt.len() as int)
}

/// Computing a part stays within `i32`: white's products added one by one, then black's
/// taken away.
pub open spec fn pos_part_fits(wc: Seq<i32>, bc: Seq<i32>, wt: Seq<i32>) -> bool {
    &&& dot_fits(0, wc, wt, false)
    &&& dot_fits(dot(wc, wt, wt.len() as int), bc, wt, true)
}

/// The four parts of the positional score of `params` for the feature maps `w` and `b`:
/// middle game, pawn phase, and their reverses.
pub open spec fn pos_parts(params: EvalParams, w: FeatureMap, b: FeatureMap) -> (int, int, int, int) {
    (pos_part(mp_counts(w), mp_counts(b), mp_weights(params)),
     pos_part(pp_counts(w), pp_counts(b), pp_weights(params)),
     pos_part(rmp_counts(w), rmp_counts(b), rmp_weights(params)),
     pos_part(rpp_counts(w), rpp_counts(b), rpp_weights(params)))
}

/// The positional score: the middle-game part scaled by the game phase and its reverse
/// by what is gone of it, the pawn-phase part by the pawn phase and its reverse likewise.
pub open spec fn pos_score(params: EvalParams, w: FeatureMap, b: FeatureMap, main: int, pawn: int) -> int {
    let (mp, pp, rmp, rpp) = pos_parts(params, w, b);
    trunc_div(mp * main, TOTAL_MAIN_PHASE as int) + trunc_div(rmp * (TOTAL_MAIN_PHASE - main), TOTAL_MAIN_PHASE as int)
        + trunc_div(pp * pawn, TOTAL_PAWN_PHASE as int) + trunc_div(rpp * (TOTAL_PAWN_PHASE - pawn), TOTAL_PAWN_PHASE as int)
}

/// The tempo bonus of the side to move, scaled by the phases.
pub open spec fn tempo_score(params: EvalParams, main: int, pawn: int) -> int {
    trunc_div(params.mp_tempo_val * main, TOTAL_MAIN_PHASE as int) + trunc_div(params.pp_tempo_val * pawn, TOTAL_PAWN_PHASE as int)
}

/// The evaluation of a position from the side to move's view: material and positional
/// score from white's view, signed for the side to move, plus the tempo bonus.
pub open spec fn eval_value(params: EvalParams, state: State) -> int {
    let m = state@;
    let bm = *state.bitmask;
    let w = features(m, bm, true);
    let b = features(m, bm, false);
    let main = phase_of(state);
    let pawn = pawn_phase_of(state);
    (material_value(params, state) + pos_score(params, w, b, main, pawn)) * (if state.player == def::PLAYER_W { 1int } else { -1 })
        + tempo_score(params, main, pawn)
}

/// The evaluation can be computed in `i32`: each sum and product on the way fits.
pub open spec fn eval_fits(params: EvalParams, state: State) -> bool {
    let m = state@;
    let bm = *state.bitmask;
    let w = features(m, bm, true);
    let b = features(m, bm, false);
    let main = phase_of(state);
    let pawn = pawn_phase_of(state);
    let (mp, pp, rmp, rpp) = pos_parts(params, w, b);
    let t1 = trunc_div(mp * main, TOTAL_MAIN_PHASE as int);
    let t2 = trunc_div(rmp * (TOTAL_MAIN_PHASE - main), TOTAL_MAIN_PHASE as int);
    let t3 = trunc_div(pp * pawn, TOTAL_PAWN_PHASE as int);
    let t4 = trunc_div(rpp * (TOTAL_PAWN_PHASE - pawn), TOTAL_PAWN_PHASE as int);
    let pos = pos_score(params, w, b, main, pawn);
    let mat = material_value(params, state);
    &&& pos_part_fits(mp_counts(w), mp_counts(b), mp_weights(params))
    &&& pos_part_fits(pp_counts(w), pp_counts(b), pp_weights(params))
    &&& pos_part_fits(rmp_counts(w), rmp_counts(b), rmp_weights(params))
    &&& pos_part_fits(rpp_counts(w), rpp_counts(b), rpp_weights(params))
    &&& fits(main) && fits(TOTAL_MAIN_PHASE - main) && fits(TOTAL_PAWN_PHASE - pawn)
    &&& fits(mp * main) && fits(rmp * (TOTAL_MAIN_PHASE - main)) && fits(pp * pawn) && fits(rpp * (TOTAL_PAWN_PHASE - pawn))
    &&& fits(t1 + t2) && fits(t1 + t2 + t3) && fits(pos)
    &&& fits(params.mp_tempo_val * main) && fits(params.pp_tempo_val * pawn)
    &&& fits(tempo_score(params, main, pawn))
    &&& material_fits(params, state)
    &&& fits(mat + pos)
    &&& fits(eval_value(params, state) - tempo_score(params, main, pawn))
    &&& fits(eval_value(params, state))
}

/// A part of the positional score: white's products added, then black's taken away.
fn part_score(wc: &Vec<i32>, bc: &Vec<i32>, wt: &Vec<i32>) -> (r: i32)
    requires
        wc@.len() == wt@.len(),
        bc@.len() == wt@.len(),
        pos_part_fits(wc@, bc@, wt@),
    ensures
        r == pos_part(wc@, bc@, wt@),
{
    let s = add_products(0, wc, wt, false);
    add_products(s, bc, wt, true)
}

impl Evaluator {
    /// The evaluation of the position from the side to move's view (see `eval_value`).
    /// The position is the same afterwards.
    #[verifier::rlimit(80)]
    pub fn eval_state(&self, state: &mut State) -> (r: i32)
        requires
            old(state).wf(),
            can_probe(old(state)@, *old(state).bitmask),
            eval_fits(self.params, *old(state)),
        ensures
            final(state)@ == old(state)@,
            final(state).bitmask == old(state).bitmask,
            final(state).zob_keys == old(state).zob_keys,
            r == eval_value(self.params, *old(state)),
    {
        let ghost s0 = *state;
        let (w_features_map, b_features_map) = self.extract_features(state);
        assert(phase_of(*state) == phase_of(s0));
        assert(pawn_phase_of(*state) == pawn_phase_of(s0));
        assert(material_value(self.params, *state) == material_value(self.params, s0));
        assert(state.player == s0.player);

        let pos_mp_score = part_score(&mp_count_vec(&w_features_map), &mp_count_vec(&b_features_map), &mp_weight_vec(&self.params));
        let pos_pp_score = part_score(&pp_count_vec(&w_features_map), &pp_count_vec(&b_features_map), &pp_weight_vec(&self.params));
        let pos_rmp_score = part_score(&rmp_count_vec(&w_features_map), &rmp_count_vec(&b_features_map), &rmp_weight_vec(&self.params));
        let pos_rpp_score = part_score(&rpp_count_vec(&w_features_map), &rpp_count_vec(&b_features_map), &rpp_weight_vec(&self.params));

        let main_phase = get_phase(state);
        let pawn_phase = get_pawn_phase(state);

        let pos_score = pos_mp_score * main_phase / TOTAL_MAIN_PHASE
            + pos_rmp_score * (TOTAL_MAIN_PHASE - main_phase) / TOTAL_MAIN_PHASE
            + pos_pp_score * pawn_phase / TOTAL_PAWN_PHASE
            + pos_rpp_score * (TOTAL_PAWN_PHASE - pawn_phase) / TOTAL_PAWN_PHASE;

        let tempo_score = self.params.mp_tempo_val * main_phase / TOTAL_MAIN_PHASE
            + self.params.pp_tempo_val * pawn_phase / TOTAL_PAWN_PHASE;

        (self.eval_materials(state) + pos_score) * get_score_sign(state) + tempo_score
    }
}


/// The sum of the products of `a` and `b`, exactly, whatever the values.
fn dot_wide(a: &Vec<i32>, b: &Vec<i32>) -> (r: i128)
    requires
        a@.len() == b@.len(),
        a@.len() <= 64,
    ensures
        r == dot(a@, b@, a@.len() as int),
        -0x10_0000_0000_0000_0000 <= r <= 0x10_0000_0000_0000_0000,
{
    let mut sum: i128 = 0;
    let mut k: usize = 0;
    while k < a.len()
        invariant
            k <= a@.len(),
            a@.len() == b@.len(),
            a@.len() <= 64,
            sum == dot(a@, b@, k as int),
            -(k as int) * 0x4000_0000_0000_0000 <= sum <= (k as int) * 0x4000_0000_0000_0000,
        decreases a@.len() - k,
    {
        let x = a[k] as i128;
        let y = b[k] as i128;
        assert(-0x4000_0000_0000_0000 <= x * y <= 0x4000_0000_0000_0000) by (nonlinear_arith)
            requires
                -0x8000_0000 <= x <= 0x7fff_ffff,
                -0x8000_0000 <= y <= 0x7fff_ffff,
        ;
        sum = sum + x * y;
        k = k + 1;
    }
    sum
}

/// A part of the positional score, exactly.
fn part_wide(wc: &Vec<i32>, bc: &Vec<i32>, wt: &Vec<i32>) -> (r: i128)
    requires
        wc@.len() == wt@.len(),
        bc@.len() == wt@.len(),
        wt@.len() <= 64,
    ensures
        r == pos_part(wc@, bc@, wt@),
        -0x20_0000_0000_0000_0000 <= r <= 0x20_0000_0000_0000_0000,
{
    dot_wide(wc, wt) - dot_wide(bc, wt)
}

/// Division rounding toward zero by a positive divisor.
fn div_toward_zero(a: i128, b: i128) -> (r: i128)
    requires
        b > 0,
        a > i128::MIN,
    ensures
        r == trunc_div(a as int, b as int),
        a >= 0 ==> 0 <= r <= a,
        a < 0 ==> a <= r <= 0,
{
    if a >= 0 {
        assert(a / b <= a) by (nonlinear_arith)
            requires
                a >= 0,
                b > 0,
        ;
        a / b
    } else {
        let n = -a;
        assert(n / b <= n) by (nonlinear_arith)
            requires
                n > 0,
                b > 0,
        ;
        -(n / b)
    }
}

/// The material sum of a position for one set of piece values, exactly.
fn sum_materials_wide(bb: &BitBoard, q: i32, r: i32, b: i32, n: i32, p: i32) -> (s: i128)
    ensures
        s == material_sum(*bb, q, r, b, n, p),
        -0x100_0000_0000 <= s <= 0x100_0000_0000,
{
    let dq = (count_pieces(bb.w_queen) - count_pieces(bb.b_queen)) as i128;
    let dr = (count_pieces(bb.w_rook) - count_pieces(bb.b_rook)) as i128;
    let db = (count_pieces(bb.w_bishop) - count_pieces(bb.b_bishop)) as i128;
    let dn = (count_pieces(bb.w_knight) - count_pieces(bb.b_knight)) as i128;
    let dp = (count_pieces(bb.w_pawn) - count_pieces(bb.b_pawn)) as i128;
    assert forall|d: i128, v: i32| -64 <= d <= 64 implies -0x20_0000_0000 <= #[trigger] (d * (v as i128)) <= 0x20_0000_0000 by {
        assert(-0x20_0000_0000 <= d * (v as i128) <= 0x20_0000_0000) by (nonlinear_arith)
            requires
                -64 <= d <= 64,
                -0x8000_0000 <= v <= 0x7fff_ffff,
        ;
    }
    let tq = dq * (q as i128);
    let tr = dr * (r as i128);
    let tb = db * (b as i128);
    let tn = dn * (n as i128);
    let tp = dp * (p as i128);
    tq + tr + tb + tn + tp
}


proof fn lemma_phases_bound(state: State)
    ensures
        0 <= phase_of(state) <= 4096,
        0 <= pawn_phase_of(state) <= 128,
{
    lemma_bit_count_bound(state.bitboard.w_queen, 64);
    lemma_bit_count_bound(state.bitboard.b_queen, 64);
    lemma_bit_count_bound(state.bitboard.w_rook, 64);
    lemma_bit_count_bound(state.bitboard.b_rook, 64);
    lemma_bit_count_bound(state.bitboard.w_bishop, 64);
    lemma_bit_count_bound(state.bitboard.b_bishop, 64);
    lemma_bit_count_bound(state.bitboard.w_knight, 64);
    lemma_bit_count_bound(state.bitboard.b_knight, 64);
    lemma_bit_count_bound(state.bitboard.w_pawn, 64);
    lemma_bit_count_bound(state.bitboard.b_pawn, 64);
}

proof fn lemma_wide_product(x: int, y: int)
    requires
        -0x20_0000_0000_0000_0000 <= x <= 0x20_0000_0000_0000_0000,
        -8192 <= y <= 8192,
    ensures
        -0x8_0000_0000_0000_0000_0000 <= x * y <= 0x8_0000_0000_0000_0000_0000,
{
    assert(-0x8_0000_0000_0000_0000_0000 <= x * y <= 0x8_0000_0000_0000_0000_0000) by (nonlinear_arith)
        requires
            -0x20_0000_0000_0000_0000 <= x <= 0x20_0000_0000_0000_0000,
            -8192 <= y <= 8192,
    ;
}

/// The four parts of the positional score scaled by the phases and added.
pub open spec fn scaled_parts(mp: int, pp: int, rmp: int, rpp: int, main: int, pawn: int) -> int {
    trunc_div(mp * main, TOTAL_MAIN_PHASE as int) + trunc_div(rmp * (TOTAL_MAIN_PHASE - main), TOTAL_MAIN_PHASE as int)
        + trunc_div(pp * pawn, TOTAL_PAWN_PHASE as int) + trunc_div(rpp * (TOTAL_PAWN_PHASE - pawn), TOTAL_PAWN_PHASE as int)
}

fn scale_parts(mp: i128, pp: i128, rmp: i128, rpp: i128, main: i128, pawn: i128) -> (r: i128)
    requires
        -0x20_0000_0000_0000_0000 <= mp <= 0x20_0000_0000_0000_0000,
        -0x20_0000_0000_0000_0000 <= pp <= 0x20_0000_0000_0000_0000,
        -0x20_0000_0000_0000_0000 <= rmp <= 0x20_0000_0000_0000_0000,
        -0x20_0000_0000_0000_0000 <= rpp <= 0x20_0000_0000_0000_0000,
        0 <= main <= 4096,
        0 <= pawn <= 128,
    ensures
        r == scaled_parts(mp as int, pp as int, rmp as int, rpp as int, main as int, pawn as int),
        -0x20_0000_0000_0000_0000_0000 <= r <= 0x20_0000_0000_0000_0000_0000,
{
    let main_rest = TOTAL_MAIN_PHASE as i128 - main;
    let pawn_rest = TOTAL_PAWN_PHASE as i128 - pawn;
    proof {
        lemma_wide_product(mp as int, main as int);
        lemma_wide_product(rmp as int, main_rest as int);
        lemma_wide_product(pp as int, pawn as int);
        lemma_wide_product(rpp as int, pawn_rest as int);
    }
    let a = div_toward_zero(mp * main, TOTAL_MAIN_PHASE as i128);
    let b = div_toward_zero(rmp * main_rest, TOTAL_MAIN_PHASE as i128);
    let c = div_toward_zero(pp * pawn, TOTAL_PAWN_PHASE as i128);
    let d = div_toward_zero(rpp * pawn_rest, TOTAL_PAWN_PHASE as i128);
    assert(-0x8_0000_0000_0000_0000_0000 <= a <= 0x8_0000_0000_0000_0000_0000);
    assert(-0x8_0000_0000_0000_0000_0000 <= b <= 0x8_0000_0000_0000_0000_0000);
    assert(-0x8_0000_0000_0000_0000_0000 <= c <= 0x8_0000_0000_0000_0000_0000);
    assert(-0x8_0000_0000_0000_0000_0000 <= d <= 0x8_0000_0000_0000_0000_0000);
    a + b + c + d
}

/// The material score from white's side (see `material_value`), exactly.
fn material_wide(params: &EvalParams, state: &State, main: i128, pawn: i128) -> (r: i128)
    requires
        main == phase_of(*state),
        pawn == pawn_phase_of(*state),
        0 <= main <= 4096,
        0 <= pawn <= 128,
    ensures
        r == material_value(*params, *state),
        -0x1_0000_0000_0000_0000 <= r <= 0x1_0000_0000_0000_0000,
{
    let bb = state.bitboard;
    let base = sum_materials_wide(&bb, params.q_val, params.r_val, params.b_val, params.n_val, params.p_val);
    let mat_mp = sum_materials_wide(&bb, params.mp_q_val, params.mp_r_val, params.mp_b_val, params.mp_n_val, params.mp_p_val);
    let mat_pp = sum_materials_wide(&bb, params.pp_q_val, params.pp_r_val, params.pp_b_val, params.pp_n_val, params.pp_p_val);
    proof {
        lemma_wide_product(mat_mp as int, main as int);
        lemma_wide_product(mat_pp as int, pawn as int);
    }
    let a = div_toward_zero(mat_mp * main, TOTAL_MAIN_PHASE as i128);
    let b = div_toward_zero(mat_pp * pawn, TOTAL_PAWN_PHASE as i128);
    assert(-0x100_0000_0000_0000 <= mat_mp * main <= 0x100_0000_0000_0000) by (nonlinear_arith)
        requires
            -0x100_0000_0000 <= mat_mp <= 0x100_0000_0000,
            0 <= main <= 4096,
    ;
    assert(-0x100_0000_0000_0000 <= mat_pp * pawn <= 0x100_0000_0000_0000) by (nonlinear_arith)
        requires
            -0x100_0000_0000 <= mat_pp <= 0x100_0000_0000,
            0 <= pawn <= 128,
    ;
    base + a + b
}

impl Evaluator {
    /// The evaluation of the position from the side to move's view (see `eval_value`),
    /// computed exactly on any position, whatever the sizes of the parameters. The position
    /// is the same afterwards.
    #[verifier::rlimit(60)]
    pub fn eval_state_wide(&self, state: &mut State) -> (r: i128)
        requires
            can_probe(old(state)@, *old(state).bitmask),
            crate::bitmask::index_masks_ok(old(state).bitmask.index_masks),
        ensures
            final(state)@ == old(state)@,
            final(state).bitmask == old(state).bitmask,
            final(state).zob_keys == old(state).zob_keys,
            r == eval_value(self.params, *old(state)),
    {
        let ghost s0 = *state;
        let (w, b) = self.extract_features(state);
        assert(phase_of(*state) == phase_of(s0));
        assert(pawn_phase_of(*state) == pawn_phase_of(s0));
        assert(material_value(self.params, *state) == material_value(self.params, s0));
        assert(state.player == s0.player);

        let mp = part_wide(&mp_count_vec(&w), &mp_count_vec(&b), &mp_weight_vec(&self.params));
        let pp = part_wide(&pp_count_vec(&w), &pp_count_vec(&b), &pp_weight_vec(&self.params));
        let rmp = part_wide(&rmp_count_vec(&w), &rmp_count_vec(&b), &rmp_weight_vec(&self.params));
        let rpp = part_wide(&rpp_count_vec(&w), &rpp_count_vec(&b), &rpp_weight_vec(&self.params));

        let main = get_phase(state);
        let pawn = get_pawn_phase(state);
        proof { lemma_phases_bound(*state); }
        let pos = scale_parts(mp, pp, rmp, rpp, main as i128, pawn as i128);
        let mat = material_wide(&self.params, state, main as i128, pawn as i128);
        proof {
            lemma_wide_product(self.params.mp_tempo_val as int, main as int);
            lemma_wide_product(self.params.pp_tempo_val as int, pawn as int);
        }
        let tempo = div_toward_zero(self.params.mp_tempo_val as i128 * main as i128, TOTAL_MAIN_PHASE as i128)
            + div_toward_zero(self.params.pp_tempo_val as i128 * pawn as i128, TOTAL_PAWN_PHASE as i128);

        assert(main == phase_of(s0));
        assert(pawn == pawn_phase_of(s0));
        assert(pos == pos_score(self.params, w, b, main as int, pawn as int));
        assert(tempo == tempo_score(self.params, main as int, pawn as int));
        assert(mat == material_value(self.params, s0));
        assert(w == features(s0@, *s0.bitmask, true));
        assert(b == features(s0@, *s0.bitmask, false));
        let total = mat + pos;
        let signed = if state.player == def::PLAYER_W { total } else { -total };
        assert(signed == (material_value(self.params, s0) + pos_score(self.params, w, b, phase_of(s0), pawn_phase_of(s0)))
            * (if s0.player == def::PLAYER_W { 1int } else { -1 }));
        signed + tempo
    }
}

/// The evaluation held within the mate scores.
pub open spec fn bounded_eval(params: EvalParams, state: State) -> int {
    let v = eval_value(params, state);
    if v > MATE_VAL { MATE_VAL as int } else if v < -MATE_VAL { -MATE_VAL as int } else { v }
}

impl Evaluator {
    /// The evaluation of the position held within the mate scores (see `bounded_eval`).
    /// The position is the same afterwards.
    pub fn eval_bounded(&self, state: &mut State) -> (r: i32)
        requires
            can_probe(old(state)@, *old(state).bitmask),
            crate::bitmask::index_masks_ok(old(state).bitmask.index_masks),
        ensures
            final(state)@ == old(state)@,
            final(state).bitmask == old(state).bitmask,
            final(state).zob_keys == old(state).zob_keys,
            r == bounded_eval(self.params, *old(state)),
    {
        let v = self.eval_state_wide(state);
        if v > MATE_VAL as i128 {
            MATE_VAL
        } else if v < -MATE_VAL as i128 {
            -MATE_VAL
        } else {
            v as i32
        }
    }
}


proof fn lemma_pin_side(c: crate::features::PieceCounts, m: StateModel, m2: StateModel, bm: BitMask, i: int,
    white: bool, q: int, a: u64)
    requires
        m2 == (StateModel { player: m2.player, ..m }),
    ensures
        crate::features::pin_step(c, m2, bm, i, white, q, a) == crate::features::pin_step(c, m, bm, i, white, q, a),
{
    let l = crate::features::lifted(m, bm, i, white);
    let l2 = crate::features::lifted(m2, bm, i, white);
    assert(l2 == (StateModel { player: m2.player, ..l }));
    assert(crate::features::king_and_queen_attacked(m2, bm, white, q) == crate::features::king_and_queen_attacked(m, bm, white, q));
    assert(crate::features::king_and_queen_attacked(l2, bm, white, q) == crate::features::king_and_queen_attacked(l, bm, white, q));
}

#[verifier::rlimit(40)]
proof fn lemma_pieces_upto_side(m: StateModel, m2: StateModel, bm: BitMask, n: int)
    requires
        m2 == (StateModel { player: m2.player, ..m }),
    ensures
        pieces_upto(m2, bm, n) == pieces_upto(m, bm, n),
    decreases n,
{
    if n > 0 {
        lemma_pieces_upto_side(m, m2, bm, n - 1);
        let i = n - 1;
        let (w, b) = pieces_upto(m, bm, n - 1);
        assert(m2.squares == m.squares);
        assert(m2.bitboard == m.bitboard);
        assert(crate::features::side_view_of(m2, bm, true) == crate::features::side_view_of(m, bm, true));
        assert(crate::features::side_view_of(m2, bm, false) == crate::features::side_view_of(m, bm, false));
        let aw = crate::features::att_wo_king(m, bm, true);
        let ab = crate::features::att_wo_king(m, bm, false);
        assert(crate::features::att_wo_king(m2, bm, true) == aw);
        assert(crate::features::att_wo_king(m2, bm, false) == ab);
        let qw = crate::features::last_index_of(m.squares, def::WQ, 64);
        let qb = crate::features::last_index_of(m.squares, def::BQ, 64);
        lemma_pin_side(w, m, m2, bm, i, true, qw, aw);
        lemma_pin_side(b, m, m2, bm, i, false, qb, ab);
    }
}

/// The positional features do not depend on the side to move.
proof fn lemma_features_side(m: StateModel, m2: StateModel, bm: BitMask, white: bool)
    requires
        m2 == (StateModel { player: m2.player, ..m }),
    ensures
        features(m2, bm, white) == features(m, bm, white),
{
    lemma_pieces_upto_side(m, m2, bm, 64);
}

/// Passing the move to the other side, with nothing else changed, negates the evaluation
/// but for the tempo bonus: the two evaluations add up to twice the tempo bonus, and
/// without tempo values one is the other negated.
#[verifier::rlimit(40)]
pub proof fn lemma_eval_side_flip(params: EvalParams, s: State, s2: State)
    requires
        s2@ == (StateModel { player: def::opposite(s.player), ..s@ }),
        s2.bitmask == s.bitmask,
        def::is_player(s.player),
    ensures
        eval_value(params, s) + eval_value(params, s2) == 2 * tempo_score(params, phase_of(s), pawn_phase_of(s)),
        params.mp_tempo_val == 0 && params.pp_tempo_val == 0 ==> eval_value(params, s) == -eval_value(params, s2),
{
    lemma_features_side(s@, s2@, *s.bitmask, true);
    lemma_features_side(s@, s2@, *s.bitmask, false);
    assert(s2.bitboard == s.bitboard);
    assert(phase_of(s2) == phase_of(s));
    assert(pawn_phase_of(s2) == pawn_phase_of(s));
    assert(material_value(params, s2) == material_value(params, s));
    let bm = *s.bitmask;
    let w = features(s@, bm, true);
    let b = features(s@, bm, false);
    assert(features(s2@, *s2.bitmask, true) == w);
    assert(features(s2@, *s2.bitmask, false) == b);
    let main = phase_of(s);
    let pawn = pawn_phase_of(s);
    let x = material_value(params, s) + pos_score(params, w, b, main, pawn);
    let t = tempo_score(params, main, pawn);
    assert(s2.player == def::opposite(s.player));
    if s.player == def::PLAYER_W {
        assert(s2.player == def::PLAYER_B);
        assert(eval_value(params, s) == x + t);
        assert(eval_value(params, s2) == -x + t);
    } else {
        assert(s2.player == def::PLAYER_W);
        assert(eval_value(params, s) == -x + t);
        assert(eval_value(params, s2) == x + t);
    }
    if params.mp_tempo_val == 0 && params.pp_tempo_val == 0 {
        assert(params.mp_tempo_val * main == 0);
        assert(params.pp_tempo_val * pawn == 0);
        assert(t == 0);
    }
}

} // verus!
