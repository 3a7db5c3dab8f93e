//! For every square, the squares a knight or king reaches in one step and the
//! squares a sliding piece passes in each of the eight directions, nearest first.
use vstd::prelude::*;

verus! {

/// `n` steps in direction `d` (one of -1, 0, 1).
pub open spec fn step(d: int, n: int) -> int {
    if d > 0 { n } else if d < 0 { -n } else { 0 }
}

/// How many steps in direction `d` stay on a line of 8 from coordinate `x`.
pub open spec fn room(x: int, d: int) -> int {
    if d > 0 { 7 - x } else if d < 0 { x } else { 7 }
}

/// The number of squares on the ray from `from` in direction (`dr` ranks, `df` files).
pub open spec fn ray_len(from: int, dr: int, df: int) -> int {
    let a = room(from / 8, dr);
    let b = room(from % 8, df);
    if a < b { a } else { b }
}

/// The `j`-th square (from 0) of the ray from `from` in direction (`dr`, `df`).
pub open spec fn ray_sq(from: int, dr: int, df: int, j: int) -> int {
    8 * (from / 8 + step(dr, j + 1)) + from % 8 + step(df, j + 1)
}

/// The squares a sliding piece on `from` passes in direction (`dr`, `df`), nearest first,
/// up to the edge of the board.
pub open spec fn ray(from: int, dr: int, df: int) -> Seq<usize> {
    Seq::new(ray_len(from, dr, df) as nat, |j: int| ray_sq(from, dr, df, j) as usize)
}

pub open spec fn is_dir(d: int) -> bool {
    -1 <= d <= 1
}

/// A step of `dr` ranks and `df` files from `from` stays on the board.
pub open spec fn step_on_board(from: int, dr: int, df: int) -> bool {
    0 <= from / 8 + dr < 8 && 0 <= from % 8 + df < 8
}

/// The squares reached from `from` by the steps `offs` that stay on the board, in the order of `offs`.
pub open spec fn steps(from: int, offs: Seq<(int, int)>) -> Seq<usize>
    decreases offs.len(),
{
    if offs.len() == 0 {
        Seq::empty()
    } else {
        let rest = steps(from, offs.drop_last());
        let (dr, df) = offs.last();
        if step_on_board(from, dr, df) { rest.push((from + 8 * dr + df) as usize) } else { rest }
    }
}

/// The knight's jumps, in the order the move lists give them.
pub open spec fn n_offsets() -> Seq<(int, int)> {
    seq![(1, -2), (1, 2), (2, -1), (2, 1), (-1, 2), (-1, -2), (-2, 1), (-2, -1)]
}

/// The king's steps, in the order the move lists give them.
pub open spec fn k_offsets() -> Seq<(int, int)> {
    seq![(0, 1), (1, -1), (1, 0), (1, 1), (0, -1), (-1, 1), (-1, 0), (-1, -1)]
}

/// A table with a row for each of the 64 squares, row `from` being `row(from)`.
pub open spec fn is_table(t: Seq<Vec<usize>>, row: spec_fn(int) -> Seq<usize>) -> bool {
    &&& t.len() == 64
    &&& forall|from: int| 0 <= from < 64 ==> #[trigger] t[from]@ == row(from)
}

pub proof fn lemma_ray_on_board(from: int, dr: int, df: int, j: int)
    requires
        0 <= from < 64,
        is_dir(dr),
        is_dir(df),
        0 <= j < ray_len(from, dr, df),
    ensures
        0 <= ray_sq(from, dr, df, j) < 64,
        ray_sq(from, dr, df, j) / 8 == from / 8 + step(dr, j + 1),
        ray_sq(from, dr, df, j) % 8 == from % 8 + step(df, j + 1),
{
}

pub proof fn lemma_steps_on_board(from: int, offs: Seq<(int, int)>)
    requires
        0 <= from < 64,
    ensures
        forall|k: int| 0 <= k < steps(from, offs).len() ==> #[trigger] steps(from, offs)[k] < 64,
    decreases offs.len(),
{
    if offs.len() > 0 {
        lemma_steps_on_board(from, offs.drop_last());
        let (dr, df) = offs.last();
        let rest = steps(from, offs.drop_last());
        let all = steps(from, offs);
        if step_on_board(from, dr, df) {
            assert(from == 8 * (from / 8) + from % 8);
            assert(0 <= from + 8 * dr + df < 64);
            assert(all == rest.push((from + 8 * dr + df) as usize));
            assert forall|k: int| 0 <= k < all.len() implies #[trigger] all[k] < 64 by {
                if k < rest.len() {
                    assert(all[k] == rest[k]);
                }
            }
        }
    }
}

fn gen_ray_table(dr: i64, df: i64) -> (table: Vec<Vec<usize>>)
    requires
        is_dir(dr as int),
        is_dir(df as int),
        !(dr == 0 && df == 0),
    ensures
        is_table(table@, |from: int| ray(from, dr as int, df as int)),
{
    let mut table: Vec<Vec<usize>> = Vec::new();
    let mut from: usize = 0;
    while from < 64
        invariant
            from <= 64,
            is_dir(dr as int),
            is_dir(df as int),
            !(dr == 0 && df == 0),
            table@.len() == from,
            forall|x: int| 0 <= x < from ==> #[trigger] table@[x]@ == ray(x, dr as int, df as int),
        decreases 64 - from,
    {
        let rank = (from / 8) as i64;
        let file = (from % 8) as i64;
        let mut row: Vec<usize> = Vec::new();
        let mut r: i64 = rank + dr;
        let mut f: i64 = file + df;
        while 0 <= r && r < 8 && 0 <= f && f < 8
            invariant
                0 <= rank < 8,
                0 <= file < 8,
                rank == from / 8,
                file == from % 8,
                from < 64,
                is_dir(dr as int),
                is_dir(df as int),
                !(dr == 0 && df == 0),
                row@.len() <= ray_len(from as int, dr as int, df as int),
                r == rank + step(dr as int, row@.len() as int + 1),
                f == file + step(df as int, row@.len() as int + 1),
                forall|j: int| 0 <= j < row@.len() ==> #[trigger] row@[j] == ray_sq(from as int, dr as int, df as int, j) as usize,
            decreases ray_len(from as int, dr as int, df as int) - row@.len(),
        {
            row.push((8 * r + f) as usize);
            r = r + dr;
            f = f + df;
        }
        assert(row@ =~= ray(from as int, dr as int, df as int));
        table.push(row);
        from = from + 1;
    }
    table
}

fn gen_step_table(offs: &[(i64, i64)]) -> (table: Vec<Vec<usize>>)
    requires
        forall|k: int| 0 <= k < offs@.len() ==> is_dir(offs@[k].0 / 2) && is_dir(offs@[k].1 / 2)
            && -2 <= #[trigger] offs@[k].0 <= 2 && -2 <= offs@[k].1 <= 2,
    ensures
        is_table(table@, |from: int| steps(from, offs@.map_values(|o: (i64, i64)| (o.0 as int, o.1 as int)))),
{
    let ghost offs_int = offs@.map_values(|o: (i64, i64)| (o.0 as int, o.1 as int));
    let mut table: Vec<Vec<usize>> = Vec::new();
    let mut from: usize = 0;
    while from < 64
        invariant
            from <= 64,
            offs_int == offs@.map_values(|o: (i64, i64)| (o.0 as int, o.1 as int)),
            forall|k: int| 0 <= k < offs@.len() ==> -2 <= #[trigger] offs@[k].0 <= 2 && -2 <= offs@[k].1 <= 2,
            table@.len() == from,
            forall|x: int| 0 <= x < from ==> #[trigger] table@[x]@ == steps(x, offs_int),
        decreases 64 - from,
    {
        let rank = (from / 8) as i64;
        let file = (from % 8) as i64;
        let mut row: Vec<usize> = Vec::new();
        let mut k: usize = 0;
        while k < offs.len()
            invariant
                k <= offs@.len(),
                from < 64,
                rank == from / 8,
                file == from % 8,
                offs_int == offs@.map_values(|o: (i64, i64)| (o.0 as int, o.1 as int)),
                forall|k: int| 0 <= k < offs@.len() ==> -2 <= #[trigger] offs@[k].0 <= 2 && -2 <= offs@[k].1 <= 2,
                row@ == steps(from as int, offs_int.subrange(0, k as int)),
            decreases offs@.len() - k,
        {
            let (dr, df) = offs[k];
            let r = rank + dr;
            let f = file + df;
            assert(offs_int.subrange(0, k + 1).drop_last() =~= offs_int.subrange(0, k as int));
            if 0 <= r && r < 8 && 0 <= f && f < 8 {
                row.push((8 * r + f) as usize);
            }
            k = k + 1;
        }
        assert(offs_int.subrange(0, offs@.len() as int) =~= offs_int);
        table.push(row);
        from = from + 1;
    }
    table
}

pub fn gen_n_mov_table() -> (table: Vec<Vec<usize>>)
    ensures
        is_table(table@, |from: int| steps(from, n_offsets())),
{
    let offs: [(i64, i64); 8] = [(1, -2), (1, 2), (2, -1), (2, 1), (-1, 2), (-1, -2), (-2, 1), (-2, -1)];
    let t = gen_step_table(&offs);
    assert(offs@.map_values(|o: (i64, i64)| (o.0 as int, o.1 as int)) =~= n_offsets());
    t
}

pub fn gen_k_mov_table() -> (table: Vec<Vec<usize>>)
    ensures
        is_table(table@, |from: int| steps(from, k_offsets())),
{
    let offs: [(i64, i64); 8] = [(0, 1), (1, -1), (1, 0), (1, 1), (0, -1), (-1, 1), (-1, 0), (-1, -1)];
    let t = gen_step_table(&offs);
    assert(offs@.map_values(|o: (i64, i64)| (o.0 as int, o.1 as int)) =~= k_offsets());
    t
}

pub fn gen_up_slide_mov_table() -> (table: Vec<Vec<usize>>)
    ensures
        is_table(table@, |from: int| ray(from, 1, 0)),
{
    gen_ray_table(1, 0)
}

pub fn gen_down_slide_mov_table() -> (table: Vec<Vec<usize>>)
    ensures
        is_table(table@, |from: int| ray(from, -1, 0)),
{
    gen_ray_table(-1, 0)
}

pub fn gen_right_slide_mov_table() -> (table: Vec<Vec<usize>>)
    ensures
        is_table(table@, |from: int| ray(from, 0, 1)),
{
    gen_ray_table(0, 1)
}

pub fn gen_left_slide_mov_table() -> (table: Vec<Vec<usize>>)
    ensures
        is_table(table@, |from: int| ray(from, 0, -1)),
{
    gen_ray_table(0, -1)
}

pub fn gen_up_left_slide_mov_table() -> (table: Vec<Vec<usize>>)
    ensures
        is_table(table@, |from: int| ray(from, 1, -1)),
{
    gen_ray_table(1, -1)
}

pub fn gen_down_right_slide_mov_table() -> (table: Vec<Vec<usize>>)
    ensures
        is_table(table@, |from: int| ray(from, -1, 1)),
{
    gen_ray_table(-1, 1)
}

pub fn gen_up_right_slide_mov_table() -> (table: Vec<Vec<usize>>)
    ensures
        is_table(table@, |from: int| ray(from, 1, 1)),
{
    gen_ray_table(1, 1)
}

pub fn gen_down_left_slide_mov_table() -> (table: Vec<Vec<usize>>)
    ensures
        is_table(table@, |from: int| ray(from, -1, -1)),
{
    gen_ray_table(-1, -1)
}

pub proof fn lemma_ray_bounded(from: int, dr: int, df: int)
    requires
        0 <= from < 64,
        is_dir(dr),
        is_dir(df),
    ensures
        forall|k: int| 0 <= k < ray(from, dr, df).len() ==> #[trigger] ray(from, dr, df)[k] < 64,
{
    assert forall|k: int| 0 <= k < ray(from, dr, df).len() implies #[trigger] ray(from, dr, df)[k] < 64 by {
        lemma_ray_on_board(from, dr, df, k);
    }
}

} // verus!
