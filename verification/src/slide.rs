//! Sliding attacks: what a rook, bishop or queen reaches along a line, given which squares
//! are occupied, and the tables that hold it for every occupancy of a line.
use vstd::prelude::*;
use crate::bits::{has_bit, single, lemma_or_bit, lemma_zero_bit, lemma_eq_by_bits};
use crate::mov_tbl::{step, room, ray_len, ray_sq, lemma_ray_on_board};

verus! {

/// Whether the table pattern `j` marks square `t` as occupied. For a rank or a diagonal the
/// pattern has one bit per file; for a file (`by_rank`) one bit per rank, the eighth rank lowest.
pub open spec fn pattern_blocks(by_rank: bool, j: u64, t: int) -> bool {
    if by_rank {
        (j >> ((7 - t / 8) as u64)) & 1 == 1
    } else {
        (j >> ((t % 8) as u64)) & 1 == 1
    }
}

/// What a slider on `s` reaches in direction (`dr`, `df`) from the `k`-th square of the ray on,
/// when the pattern `j` says which squares are occupied: every square up to and including the
/// first occupied one.
pub open spec fn walk_pat(s: int, dr: int, df: int, by_rank: bool, j: u64, k: int) -> u64
    decreases ray_len(s, dr, df) - k,
{
    if k < 0 || k >= ray_len(s, dr, df) {
        0
    } else {
        let t = ray_sq(s, dr, df, k);
        single(t) | (if pattern_blocks(by_rank, j, t) { 0 } else { walk_pat(s, dr, df, by_rank, j, k + 1) })
    }
}

/// What a slider on `s` reaches in direction (`dr`, `df`) from the `k`-th square of the ray on,
/// on a board whose occupied squares are the bits of `occ`.
pub open spec fn walk_board(s: int, dr: int, df: int, occ: u64, k: int) -> u64
    decreases ray_len(s, dr, df) - k,
{
    if k < 0 || k >= ray_len(s, dr, df) {
        0
    } else {
        let t = ray_sq(s, dr, df, k);
        single(t) | (if has_bit(occ, t) { 0 } else { walk_board(s, dr, df, occ, k + 1) })
    }
}

/// What a slider on `s` reaches along the line through it in direction (`dr`, `df`), both ways,
/// for the table pattern `j`.
pub open spec fn line_pat(s: int, dr: int, df: int, by_rank: bool, j: u64) -> u64 {
    walk_pat(s, dr, df, by_rank, j, 0) | walk_pat(s, -dr, -df, by_rank, j, 0)
}

/// What a slider on `s` reaches along the line through it in direction (`dr`, `df`), both ways,
/// on the board `occ`.
pub open spec fn line_board(s: int, dr: int, df: int, occ: u64) -> u64 {
    walk_board(s, dr, df, occ, 0) | walk_board(s, -dr, -df, occ, 0)
}

/// A table with a row of 256 entries for each square, entry `j` of row `s` being what a
/// slider on `s` reaches along the line (`dr`, `df`) for the pattern `j`.
pub open spec fn is_slide_table(t: Seq<Vec<u64>>, dr: int, df: int, by_rank: bool) -> bool {
    &&& t.len() == 64
    &&& forall|s: int| 0 <= s < 64 ==> (#[trigger] t[s]@).len() == 256
    &&& forall|s: int, j: int| 0 <= s < 64 && 0 <= j < 256 ==>
        #[trigger] t[s]@[j] == line_pat(s, dr, df, by_rank, j as u64)
}

pub proof fn lemma_or_assoc(a: u64, b: u64, c: u64)
    ensures
        (a | b) | c == a | (b | c),
        a | 0 == a,
{
    assert forall|t: int| 0 <= t < 64 implies has_bit((a | b) | c, t) == has_bit(a | (b | c), t) by {
        lemma_or_bit(a | b, c, t);
        lemma_or_bit(a, b, t);
        lemma_or_bit(a, b | c, t);
        lemma_or_bit(b, c, t);
    }
    lemma_eq_by_bits((a | b) | c, a | (b | c));
    assert forall|t: int| 0 <= t < 64 implies has_bit(a | 0, t) == has_bit(a, t) by {
        lemma_or_bit(a, 0, t);
        lemma_zero_bit(t);
    }
    lemma_eq_by_bits(a | 0, a);
}

/// Walks over a pattern and over a board agree when they agree on every square of the ray.
pub proof fn lemma_walk_pat_board(s: int, dr: int, df: int, by_rank: bool, j: u64, occ: u64, k: int)
    requires
        forall|m: int| k <= m < ray_len(s, dr, df) ==>
            pattern_blocks(by_rank, j, #[trigger] ray_sq(s, dr, df, m)) == has_bit(occ, ray_sq(s, dr, df, m)),
    ensures
        walk_pat(s, dr, df, by_rank, j, k) == walk_board(s, dr, df, occ, k),
    decreases ray_len(s, dr, df) - k,
{
    if k >= 0 && k < ray_len(s, dr, df) {
        lemma_walk_pat_board(s, dr, df, by_rank, j, occ, k + 1);
        let t = ray_sq(s, dr, df, k);
        assert(pattern_blocks(by_rank, j, t) == has_bit(occ, t));
    }
}

fn room_exec(x: i8, d: i8) -> (r: i8)
    requires
        0 <= x < 8,
        -1 <= d <= 1,
    ensures
        r == room(x as int, d as int),
{
    if d > 0 { 7 - x } else if d < 0 { x } else { 7 }
}

/// What a slider on `s` reaches in direction (`dr`, `df`) for the pattern `j`.
fn walk_exec(s: usize, dr: i8, df: i8, by_rank: bool, j: u64) -> (r: u64)
    requires
        s < 64,
        -1 <= dr <= 1,
        -1 <= df <= 1,
    ensures
        r == walk_pat(s as int, dr as int, df as int, by_rank, j, 0),
{
    let r0: i8 = (s / 8) as i8;
    let f0: i8 = (s % 8) as i8;
    let a = room_exec(r0, dr);
    let b = room_exec(f0, df);
    let len: i8 = if a < b { a } else { b };
    let mut rk: i8 = r0 + dr;
    let mut fl: i8 = f0 + df;
    let mut k: i8 = 0;
    let mut mask: u64 = 0;
    proof { lemma_or_assoc(0, 0, 0); }
    assert(walk_pat(s as int, dr as int, df as int, by_rank, j, 0) == mask | walk_pat(s as int, dr as int, df as int, by_rank, j, k as int)) by {
        lemma_or_assoc(0, 0, walk_pat(s as int, dr as int, df as int, by_rank, j, 0));
        assert(0u64 | walk_pat(s as int, dr as int, df as int, by_rank, j, 0) == walk_pat(s as int, dr as int, df as int, by_rank, j, 0)) by {
            let w = walk_pat(s as int, dr as int, df as int, by_rank, j, 0);
            assert forall|t: int| 0 <= t < 64 implies has_bit(0u64 | w, t) == has_bit(w, t) by {
                lemma_or_bit(0, w, t);
                lemma_zero_bit(t);
            }
            lemma_eq_by_bits(0u64 | w, w);
        }
    }
    while k < len
        invariant
            s < 64,
            -1 <= dr <= 1,
            -1 <= df <= 1,
            r0 == s / 8,
            f0 == s % 8,
            len == ray_len(s as int, dr as int, df as int),
            0 <= len <= 7,
            0 <= k <= len,
            rk == r0 + step(dr as int, k + 1),
            fl == f0 + step(df as int, k + 1),
            walk_pat(s as int, dr as int, df as int, by_rank, j, 0) == mask | walk_pat(s as int, dr as int, df as int, by_rank, j, k as int),
        decreases len - k,
    {
        proof { lemma_ray_on_board(s as int, dr as int, df as int, k as int); }
        let t: usize = (rk * 8 + fl) as usize;
        assert(t == ray_sq(s as int, dr as int, df as int, k as int));
        let ghost rest = walk_pat(s as int, dr as int, df as int, by_rank, j, k + 1);
        let blocked = if by_rank { (j >> (7 - t / 8) as u64) & 1 == 1 } else { (j >> (t % 8) as u64) & 1 == 1 };
        proof { lemma_or_assoc(mask, single(t as int), if blocked { 0 } else { rest }); }
        mask = mask | (1u64 << t as u64);
        if blocked {
            proof { lemma_or_assoc(mask, 0, 0); }
            return mask;
        }
        rk = rk + dr;
        fl = fl + df;
        k = k + 1;
    }
    proof { lemma_or_assoc(mask, 0, 0); }
    mask
}

/// The table for the line direction (`dr`, `df`): for each square and each of the 256
/// patterns, what a slider reaches both ways.
pub fn slide_table(dr: i8, df: i8, by_rank: bool) -> (t: Vec<Vec<u64>>)
    requires
        -1 <= dr <= 1,
        -1 <= df <= 1,
    ensures
        is_slide_table(t@, dr as int, df as int, by_rank),
{
    let mut table: Vec<Vec<u64>> = Vec::new();
    let mut s: usize = 0;
    while s < 64
        invariant
            -1 <= dr <= 1,
            -1 <= df <= 1,
            s <= 64,
            table@.len() == s,
            forall|q: int| 0 <= q < s ==> (#[trigger] table@[q]@).len() == 256,
            forall|q: int, j: int| 0 <= q < s && 0 <= j < 256 ==>
                #[trigger] table@[q]@[j] == line_pat(q, dr as int, df as int, by_rank, j as u64),
        decreases 64 - s,
    {
        let mut row: Vec<u64> = Vec::new();
        let mut j: u64 = 0;
        while j < 256
            invariant
                -1 <= dr <= 1,
                -1 <= df <= 1,
                s < 64,
                j <= 256,
                row@.len() == j,
                forall|i: int| 0 <= i < j ==> #[trigger] row@[i] == line_pat(s as int, dr as int, df as int, by_rank, i as u64),
            decreases 256 - j,
        {
            let a = walk_exec(s, dr, df, by_rank, j);
            let b = walk_exec(s, -dr, -df, by_rank, j);
            row.push(a | b);
            j = j + 1;
        }
        table.push(row);
        s = s + 1;
    }
    table
}

} // verus!
