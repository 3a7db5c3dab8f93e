//! The Zobrist keys that position keys are built from: one per piece code on each square,
//! one for black to move, one per en-passant square and one per set of castling rights.
use vstd::prelude::*;
use crate::def;
use crate::prng::{XorshiftPrng, SEED_C89, SEED_A86, rand_output, rand_next, rows_of, fill_table};
use crate::state::keys_ok;

verus! {

pub const CASTLING_RIGHTS_COMB_SIZE: usize = 16;

pub struct ZobKeys {
    pub board_zob_keys: Vec<Vec<u64>>,
    pub b_player_zob_key: u64,
    pub enp_sqr_zob_keys: Vec<u64>,
    pub castling_rights_zob_keys: Vec<u64>,
}

impl ZobKeys {
    /// A key for every piece code on every square, for every square and for every
    /// combination of castling rights.
    pub open spec fn wf(&self) -> bool {
        &&& keys_ok(self.board_zob_keys@)
        &&& self.enp_sqr_zob_keys@.len() == def::BOARD_SIZE
        &&& self.castling_rights_zob_keys@.len() == CASTLING_RIGHTS_COMB_SIZE
    }
}

/// The numbers `list` followed by `n - k` more drawn from the state `s`, and the state after.
pub open spec fn draw_list(list: Seq<u64>, k: int, n: int, s: (u64, u64)) -> (Seq<u64>, (u64, u64))
    decreases n - k,
{
    if k >= n {
        (list, s)
    } else {
        draw_list(list.push(rand_output(s.0, s.1)), k + 1, n, rand_next(s.0, s.1))
    }
}

/// The keys drawn from a freshly seeded generator: the board table first (see
/// `fill_table`), then the key for black to move, the en-passant keys and the castling keys.
pub open spec fn drawn_keys() -> (Seq<Seq<u64>>, u64, Seq<u64>, Seq<u64>) {
    let (board, s1) = fill_table(Seq::empty(), 0, def::BOARD_SIZE as int, def::PIECE_CODE_RANGE as int, (SEED_C89, SEED_A86));
    let s2 = rand_next(s1.0, s1.1);
    let (enp, s3) = draw_list(Seq::empty(), 0, def::BOARD_SIZE as int, s2);
    let (cas, s4) = draw_list(Seq::empty(), 0, CASTLING_RIGHTS_COMB_SIZE as int, s3);
    (board, rand_output(s1.0, s1.1), enp, cas)
}

/// `len` numbers drawn from the generator one after another.
fn create_prn_list(prng: &mut XorshiftPrng, len: usize) -> (r: Vec<u64>)
    ensures
        (r@, final(prng).seeds()) == draw_list(Seq::empty(), 0, len as int, old(prng).seeds()),
        r@.len() == len,
{
    let ghost s0 = prng.seeds();
    let mut list: Vec<u64> = Vec::new();
    let mut i: usize = 0;
    while i < len
        invariant
            i <= len,
            list@.len() == i,
            draw_list(list@, i as int, len as int, prng.seeds()) == draw_list(Seq::empty(), 0, len as int, s0),
        decreases len - i,
    {
        list.push(prng.gen_rand());
        i = i + 1;
    }
    list
}

/// Draws all keys from a freshly seeded generator: the board table first, then the key
/// for black to move, the en-passant keys and the castling keys.
pub fn init() -> (r: ZobKeys)
    ensures
        r.wf(),
        (rows_of(r.board_zob_keys@), r.b_player_zob_key, r.enp_sqr_zob_keys@, r.castling_rights_zob_keys@)
            == drawn_keys(),
{
    let mut prng = XorshiftPrng::new();
    let board_zob_keys = prng.create_prn_table(def::BOARD_SIZE, def::PIECE_CODE_RANGE);
    let b_player_zob_key = prng.gen_rand();
    let enp_sqr_zob_keys = create_prn_list(&mut prng, def::BOARD_SIZE);
    let castling_rights_zob_keys = create_prn_list(&mut prng, CASTLING_RIGHTS_COMB_SIZE);
    ZobKeys { board_zob_keys, b_player_zob_key, enp_sqr_zob_keys, castling_rights_zob_keys }
}

impl ZobKeys {
    pub fn get_board_zob_key(&self, index: usize, moving_piece: u8) -> (r: u64)
        requires
            self.wf(),
            index < def::BOARD_SIZE,
            (moving_piece as int) < def::PIECE_CODE_RANGE,
        ensures
            r == self.board_zob_keys@[index as int]@[moving_piece as int],
    {
        self.board_zob_keys[index][moving_piece as usize]
    }

    pub fn get_b_player_zob_key(&self) -> (r: u64)
        ensures
            r == self.b_player_zob_key,
    {
        self.b_player_zob_key
    }

    pub fn get_enp_sqr_zob_key(&self, index: usize) -> (r: u64)
        requires
            self.wf(),
            index < def::BOARD_SIZE,
        ensures
            r == self.enp_sqr_zob_keys@[index as int],
    {
        self.enp_sqr_zob_keys[index]
    }

    pub fn get_cas_rights_zob_key(&self, cas_rights: u8) -> (r: u64)
        requires
            self.wf(),
            (cas_rights as int) < CASTLING_RIGHTS_COMB_SIZE,
        ensures
            r == self.castling_rights_zob_keys@[cas_rights as int],
    {
        self.castling_rights_zob_keys[cas_rights as usize]
    }
}

} // verus!
