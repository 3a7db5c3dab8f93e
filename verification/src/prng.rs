//! A xorshift generator of pseudo-random 64-bit numbers, used for the Zobrist keys.
use vstd::prelude::*;
use crate::def;

verus! {

pub const SEED_C89: u64 = 0b10110110_00101111_10100100_01011000_00001000_01100100_11010111_11111010;
pub const SEED_A86: u64 = 0b10111001_11010011_00111100_00010100_00110000_00100110_11001111_10110110;

/// The bits of `x` rotated left by `k`.
pub open spec fn rotated(x: u64, k: u64) -> u64 {
    (x << k) | (x >> (64u64 - k) as u64)
}

pub fn rotate(x: u64, k: usize) -> (r: u64)
    requires
        0 < k < 64,
    ensures
        r == rotated(x, k as u64),
{
    (x << k) | (x >> (64 - k))
}

/// The number that the generator gives from the state `(s0, s1)`.
pub open spec fn rand_output(s0: u64, s1: u64) -> u64 {
    rotated(s0.wrapping_mul(5), 7).wrapping_mul(9)
}

/// The state that follows `(s0, s1)`.
pub open spec fn rand_next(s0: u64, s1: u64) -> (u64, u64) {
    let t = s1 ^ s0;
    (rotated(s0, 24) ^ t ^ (t << 16u64), rotated(t, 37))
}

pub struct XorshiftPrng {
    state: [u64; 2],
}

impl XorshiftPrng {
    pub closed spec fn seeds(&self) -> (u64, u64) {
        (self.state[0], self.state[1])
    }

    pub fn new() -> (r: XorshiftPrng)
        ensures
            r.seeds() == (SEED_C89, SEED_A86),
    {
        XorshiftPrng { state: [SEED_C89, SEED_A86] }
    }

    pub fn gen_rand(&mut self) -> (r: u64)
        ensures
            r == rand_output(old(self).seeds().0, old(self).seeds().1),
            final(self).seeds() == rand_next(old(self).seeds().0, old(self).seeds().1),
    {
        let s0 = self.state[0];
        let mut s1 = self.state[1];

        let next_rand = rotate(s0.wrapping_mul(5), 7).wrapping_mul(9);
        s1 = s1 ^ s0;

        self.state[0] = rotate(s0, 24) ^ s1 ^ (s1 << 16);
        self.state[1] = rotate(s1, 37);

        next_rand
    }

}

/// The rows of a table as sequences.
pub open spec fn rows_of(t: Seq<Vec<u64>>) -> Seq<Seq<u64>> {
    t.map_values(|r: Vec<u64>| r@)
}

/// `prn` equals an entry of `t` in a row above `i` and a column left of `j`.
pub open spec fn clash(t: Seq<Seq<u64>>, i: int, j: int, prn: u64) -> bool {
    exists|ii: int, jj: int| 0 <= ii < i && 0 <= jj < j && #[trigger] t[ii][jj] == prn
}

/// Redrawing for the entry `(i, j)`: while `prn` clashes and the count of redraws has
/// not reached `u64::MAX`, the next number is drawn. The number kept and the state after.
pub open spec fn redraw(t: Seq<Seq<u64>>, i: int, j: int, prn: u64, s: (u64, u64), attempts: int) -> (u64, (u64, u64))
    decreases u64::MAX - attempts,
{
    if attempts < u64::MAX && clash(t, i, j, prn) {
        redraw(t, i, j, rand_output(s.0, s.1), rand_next(s.0, s.1), attempts + 1)
    } else {
        (prn, s)
    }
}

/// The entry `(i, j)` drawn from the state `s`: the first number drawn that does not
/// clash with the entries above and to the left (see `redraw`), and the state after.
pub open spec fn cell_draw(t: Seq<Seq<u64>>, i: int, j: int, s: (u64, u64)) -> (u64, (u64, u64)) {
    redraw(t, i, j, rand_output(s.0, s.1), rand_next(s.0, s.1), 0)
}

/// Row `i` filled on from column `j` to `n` after `row`: entries of the first
/// `BOARD_SIZE` rows and `PIECE_CODE_RANGE` columns are drawn, the others are 0.
pub open spec fn fill_row(t: Seq<Seq<u64>>, i: int, j: int, n: int, row: Seq<u64>, s: (u64, u64)) -> (Seq<u64>, (u64, u64))
    decreases n - j,
{
    if j >= n {
        (row, s)
    } else if i < def::BOARD_SIZE && j < def::PIECE_CODE_RANGE {
        let (v, s1) = cell_draw(t, i, j, s);
        fill_row(t, i, j + 1, n, row.push(v), s1)
    } else {
        fill_row(t, i, j + 1, n, row.push(0), s)
    }
}

/// The table of `m` rows of `n` entries filled on from row `i` after the rows `t`, and
/// the generator's state after.
pub open spec fn fill_table(t: Seq<Seq<u64>>, i: int, m: int, n: int, s: (u64, u64)) -> (Seq<Seq<u64>>, (u64, u64))
    decreases m - i,
{
    if i >= m {
        (t, s)
    } else {
        let (row, s1) = fill_row(t, i, 0, n, Seq::empty(), s);
        fill_table(t.push(row), i + 1, m, n, s1)
    }
}

impl XorshiftPrng {
    fn clashes(table: &Vec<Vec<u64>>, i: usize, j: usize, prn: u64) -> (r: bool)
        requires
            i <= table@.len(),
            forall|a: int| 0 <= a < i ==> #[trigger] table@[a]@.len() >= j,
        ensures
            r == clash(rows_of(table@), i as int, j as int, prn),
    {
        let ghost t = rows_of(table@);
        let mut ii: usize = 0;
        while ii < i
            invariant
                ii <= i,
                i <= table@.len(),
                t == rows_of(table@),
                forall|a: int| 0 <= a < i ==> #[trigger] table@[a]@.len() >= j,
                forall|a: int, b: int| 0 <= a < ii && 0 <= b < j ==> #[trigger] table@[a]@[b] != prn,
            decreases i - ii,
        {
            let mut jj: usize = 0;
            while jj < j
                invariant
                    jj <= j,
                    ii < i,
                    i <= table@.len(),
                    t == rows_of(table@),
                    forall|a: int| 0 <= a < i ==> #[trigger] table@[a]@.len() >= j,
                    forall|a: int, b: int| 0 <= a < ii && 0 <= b < j ==> #[trigger] table@[a]@[b] != prn,
                    forall|b: int| 0 <= b < jj ==> #[trigger] table@[ii as int]@[b] != prn,
                decreases j - jj,
            {
                if table[ii][jj] == prn {
                    assert(t[ii as int][jj as int] == prn);
                    return true;
                }
                jj = jj + 1;
            }
            ii = ii + 1;
        }
        assert forall|a: int, b: int| 0 <= a < i && 0 <= b < j implies #[trigger] t[a][b] != prn by {
            assert(t[a] == table@[a]@);
        }
        false
    }

    /// A table of `fst_dim` rows of `snd_dim` numbers: the entries of the first
    /// `BOARD_SIZE` rows and `PIECE_CODE_RANGE` columns are drawn in row order, each the
    /// first number drawn that differs from every entry above and to the left of it (the
    /// redraws stop after `u64::MAX` of them); the others are 0 (see `fill_table`).
    pub fn create_prn_table(&mut self, fst_dim: usize, snd_dim: usize) -> (prn_table: Vec<Vec<u64>>)
        requires
            fst_dim >= def::BOARD_SIZE,
            snd_dim >= def::PIECE_CODE_RANGE,
        ensures
            (rows_of(prn_table@), final(self).seeds())
                == fill_table(Seq::empty(), 0, fst_dim as int, snd_dim as int, old(self).seeds()),
            prn_table@.len() == fst_dim,
            forall|i: int| 0 <= i < fst_dim ==> #[trigger] prn_table@[i]@.len() == snd_dim,
            forall|i: int, j: int| 0 <= i < fst_dim && 0 <= j < snd_dim
                && !(i < def::BOARD_SIZE && j < def::PIECE_CODE_RANGE) ==> #[trigger] prn_table@[i]@[j] == 0,
    {
        let ghost s0 = self.seeds();
        let mut prn_table: Vec<Vec<u64>> = Vec::new();
        let mut i: usize = 0;
        proof {
            assert(rows_of(prn_table@) =~= Seq::<Seq<u64>>::empty());
        }
        while i < fst_dim
            invariant
                i <= fst_dim,
                fst_dim >= def::BOARD_SIZE,
                snd_dim >= def::PIECE_CODE_RANGE,
                prn_table@.len() == i,
                fill_table(rows_of(prn_table@), i as int, fst_dim as int, snd_dim as int, self.seeds())
                    == fill_table(Seq::empty(), 0, fst_dim as int, snd_dim as int, s0),
                forall|x: int| 0 <= x < i ==> #[trigger] prn_table@[x]@.len() == snd_dim,
                forall|x: int, y: int| 0 <= x < i && 0 <= y < snd_dim
                    && !(x < def::BOARD_SIZE && y < def::PIECE_CODE_RANGE) ==> #[trigger] prn_table@[x]@[y] == 0,
            decreases fst_dim - i,
        {
            let ghost t = rows_of(prn_table@);
            let ghost row_start = self.seeds();
            let mut row: Vec<u64> = Vec::new();
            let mut j: usize = 0;
            while j < snd_dim
                invariant
                    j <= snd_dim,
                    i < fst_dim,
                    snd_dim >= def::PIECE_CODE_RANGE,
                    row@.len() == j,
                    prn_table@.len() == i,
                    t == rows_of(prn_table@),
                    fill_row(t, i as int, j as int, snd_dim as int, row@, self.seeds())
                        == fill_row(t, i as int, 0, snd_dim as int, Seq::empty(), row_start),
                    forall|x: int| 0 <= x < i ==> #[trigger] prn_table@[x]@.len() == snd_dim,
                    forall|y: int| 0 <= y < j && !(i < def::BOARD_SIZE && y < def::PIECE_CODE_RANGE)
                        ==> #[trigger] row@[y] == 0,
                decreases snd_dim - j,
            {
                if i < def::BOARD_SIZE && j < def::PIECE_CODE_RANGE {
                    let ghost cell_start = self.seeds();
                    let mut prn = self.gen_rand();
                    let mut attempts: u64 = 0;
                    while attempts < u64::MAX && Self::clashes(&prn_table, i, j, prn)
                        invariant
                            i < fst_dim,
                            prn_table@.len() == i,
                            snd_dim >= def::PIECE_CODE_RANGE,
                            j < snd_dim,
                            t == rows_of(prn_table@),
                            forall|x: int| 0 <= x < i ==> #[trigger] prn_table@[x]@.len() == snd_dim,
                            redraw(t, i as int, j as int, prn, self.seeds(), attempts as int)
                                == cell_draw(t, i as int, j as int, cell_start),
                        decreases u64::MAX - attempts,
                    {
                        prn = self.gen_rand();
                        attempts = attempts + 1;
                    }
                    row.push(prn);
                } else {
                    row.push(0);
                }
                j = j + 1;
            }
            prn_table.push(row);
            proof {
                assert(rows_of(prn_table@) =~= t.push(row@));
            }
            i = i + 1;
        }

        prn_table
    }
}

} // verus!
