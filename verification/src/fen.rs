//! The text of a position (Forsyth-Edwards notation): what a well-formed one is and
//! what it stands for.
use vstd::prelude::*;
use crate::def;
use crate::text::{split, is_decimal_upto, decimal_value, all_digits, is_digit, digit_value};
use crate::util::{is_piece_char, piece_of_char, is_sqr_notation, sqr_index};

verus! {

/// A character that may stand in a rank of the board field: a piece letter or a count of empty squares.
pub open spec fn rank_char_ok(c: char) -> bool {
    is_piece_char(c) || ('1' <= c <= '8')
}

/// The squares of a rank, file a first: a digit stands for that many empty squares.
pub open spec fn expand_rank(r: Seq<char>) -> Seq<u8>
    decreases r.len(),
{
    if r.len() == 0 {
        Seq::empty()
    } else if '1' <= r[0] <= '8' {
        Seq::new((r[0] as int - '0' as int) as nat, |i: int| 0u8) + expand_rank(r.drop_first())
    } else {
        seq![piece_of_char(r[0])] + expand_rank(r.drop_first())
    }
}

pub open spec fn rank_ok(r: Seq<char>) -> bool {
    &&& forall|i: int| 0 <= i < r.len() ==> #[trigger] rank_char_ok(r[i])
    &&& expand_rank(r).len() == 8
}

/// The board field: eight ranks separated by '/', the eighth rank first, each of eight squares.
pub open spec fn placement_ok(p: Seq<char>) -> bool {
    &&& split(p, '/').len() == 8
    &&& forall|k: int| 0 <= k < 8 ==> #[trigger] rank_ok(split(p, '/')[k])
}

/// The squares that the board field describes.
pub open spec fn placement_squares(p: Seq<char>) -> Seq<u8> {
    Seq::new(64, |i: int| expand_rank(split(p, '/')[7 - i / 8])[i % 8])
}

pub open spec fn fen_fields(fen: Seq<char>) -> Seq<Seq<char>> {
    split(fen, ' ')
}

/// A position text that can be read: board, side to move, castling rights, en-passant
/// square and half-move counter, separated by single spaces (more fields may follow).
pub open spec fn fen_ok(fen: Seq<char>) -> bool {
    let f = fen_fields(fen);
    &&& f.len() >= 5
    &&& placement_ok(f[0])
    &&& (f[1] == seq!['w'] || f[1] == seq!['b'])
    &&& (f[3] == seq!['-'] || is_sqr_notation(f[3]))
    &&& is_decimal_upto(f[4], 65535)
}

pub open spec fn fen_squares(fen: Seq<char>) -> Seq<u8> {
    placement_squares(fen_fields(fen)[0])
}

pub open spec fn fen_player(fen: Seq<char>) -> u8 {
    if fen_fields(fen)[1] == seq!['w'] { def::PLAYER_W } else { def::PLAYER_B }
}

/// The castling rights of the castling field: K, Q, k and q give the bits 8, 4, 2 and 1.
pub open spec fn cas_rights_of(s: Seq<char>) -> u8 {
    ((if s.contains('K') { 8int } else { 0 }) + (if s.contains('Q') { 4int } else { 0 })
        + (if s.contains('k') { 2int } else { 0 }) + (if s.contains('q') { 1int } else { 0 })) as u8
}

pub open spec fn fen_cas_rights(fen: Seq<char>) -> u8 {
    cas_rights_of(fen_fields(fen)[2])
}

pub open spec fn fen_enp_square(fen: Seq<char>) -> usize {
    let s = fen_fields(fen)[3];
    if s == seq!['-'] { 0 } else { sqr_index(s) as usize }
}

pub open spec fn fen_non_cap_mov_count(fen: Seq<char>) -> u16 {
    decimal_value(fen_fields(fen)[4]) as u16
}

/// Expands a rank of the board field into its squares.
pub fn expand_rank_chars(r: &Vec<char>) -> (out: Vec<u8>)
    requires
        forall|i: int| 0 <= i < r@.len() ==> #[trigger] rank_char_ok(r@[i]),
    ensures
        out@ == expand_rank(r@),
{
    let mut out: Vec<u8> = Vec::new();
    let mut i: usize = 0;
    proof {
        assert(r@.subrange(0, r@.len() as int) =~= r@);
        assert(out@ + expand_rank(r@) =~= expand_rank(r@));
    }
    while i < r.len()
        invariant
            i <= r@.len(),
            forall|j: int| 0 <= j < r@.len() ==> #[trigger] rank_char_ok(r@[j]),
            out@ + expand_rank(r@.subrange(i as int, r@.len() as int)) == expand_rank(r@),
        decreases r@.len() - i,
    {
        let ghost rest = r@.subrange(i as int, r@.len() as int);
        assert(rest.drop_first() =~= r@.subrange(i + 1, r@.len() as int));
        let ghost before = out@;
        let c = r[i];
        assert(rank_char_ok(r@[i as int]));
        if '1' <= c && c <= '8' {
            let n = (c as u32 - '0' as u32) as usize;
            let mut k: usize = 0;
            while k < n
                invariant
                    k <= n,
                    out@ == before + Seq::new(k as nat, |j: int| 0u8),
                decreases n - k,
            {
                out.push(0);
                k = k + 1;
                assert(out@ =~= before + Seq::new(k as nat, |j: int| 0u8));
            }
            assert(before + (Seq::new(n as nat, |j: int| 0u8) + expand_rank(rest.drop_first()))
                =~= out@ + expand_rank(rest.drop_first()));
        } else {
            let piece = crate::util::map_piece_char_to_code(c);
            out.push(piece);
            assert(before + (seq![piece] + expand_rank(rest.drop_first()))
                =~= out@ + expand_rank(rest.drop_first()));
        }
        i = i + 1;
    }
    assert(r@.subrange(i as int, r@.len() as int) =~= Seq::<char>::empty());
    assert(out@ + Seq::<u8>::empty() =~= out@);
    out
}

/// Whether a rank of the board field is well formed.
pub fn check_rank(r: &Vec<char>) -> (ok: bool)
    ensures
        ok == rank_ok(r@),
{
    let mut i: usize = 0;
    while i < r.len()
        invariant
            i <= r@.len(),
            forall|j: int| 0 <= j < i ==> #[trigger] rank_char_ok(r@[j]),
        decreases r@.len() - i,
    {
        let c = r[i];
        let ok = c == 'K' || c == 'Q' || c == 'R' || c == 'B' || c == 'N' || c == 'P'
            || c == 'k' || c == 'q' || c == 'r' || c == 'b' || c == 'n' || c == 'p'
            || ('1' <= c && c <= '8');
        if !ok {
            assert(!rank_char_ok(r@[i as int]));
            return false;
        }
        i = i + 1;
    }
    let squares = expand_rank_chars(r);
    squares.len() == 8
}

/// Whether the text is a number from 0 to `max` that `str::parse` reads.
pub fn check_decimal_upto(s: &Vec<char>, max: u64) -> (ok: bool)
    requires
        max < u64::MAX / 16,
    ensures
        ok == is_decimal_upto(s@, max as nat),
{
    if s.len() == 0 {
        return false;
    }
    let mut v: u64 = 0;
    let mut i: usize = 0;
    while i < s.len()
        invariant
            i <= s@.len(),
            max < u64::MAX / 16,
            all_digits(s@.subrange(0, i as int)),
            v <= max ==> v == decimal_value(s@.subrange(0, i as int)),
            v > max ==> decimal_value(s@.subrange(0, i as int)) > max,
            v <= max + 1,
        decreases s@.len() - i,
    {
        let c = s[i];
        if !('0' <= c && c <= '9') {
            assert(!all_digits(s@)) by {
                assert(!is_digit(s@[i as int]));
            }
            return false;
        }
        let ghost p = s@.subrange(0, i as int);
        let ghost q = s@.subrange(0, i + 1);
        assert(q.drop_last() =~= p);
        assert(all_digits(q)) by {
            assert forall|j: int| 0 <= j < q.len() implies #[trigger] is_digit(q[j]) by {
                if j < i {
                    assert(is_digit(p[j]));
                }
            }
        }
        if v <= max {
            let d = (c as u32 - '0' as u32) as u64;
            let nv = v * 10 + d;
            v = if nv > max { max + 1 } else { nv };
        }
        i = i + 1;
    }
    assert(s@.subrange(0, i as int) =~= s@);
    v <= max
}

/// Every square of an expanded rank holds a piece code.
pub proof fn lemma_expand_rank_codes(r: Seq<char>)
    requires
        forall|i: int| 0 <= i < r.len() ==> #[trigger] rank_char_ok(r[i]),
    ensures
        forall|i: int| 0 <= i < expand_rank(r).len() ==> #[trigger] def::is_square_code(expand_rank(r)[i]),
    decreases r.len(),
{
    if r.len() > 0 {
        let rest = r.drop_first();
        assert forall|i: int| 0 <= i < rest.len() implies #[trigger] rank_char_ok(rest[i]) by {
            assert(rank_char_ok(r[i + 1]));
        }
        lemma_expand_rank_codes(rest);
        assert(rank_char_ok(r[0]));
        if !('1' <= r[0] <= '8') {
            crate::util::lemma_piece_of_char_is_piece(r[0]);
        }
        let head: Seq<u8> = if '1' <= r[0] <= '8' {
            Seq::new((r[0] as int - '0' as int) as nat, |i: int| 0u8)
        } else {
            seq![piece_of_char(r[0])]
        };
        assert(expand_rank(r) == head + expand_rank(rest));
        assert forall|i: int| 0 <= i < expand_rank(r).len() implies #[trigger] def::is_square_code(expand_rank(r)[i]) by {
            if i >= head.len() {
                assert(expand_rank(r)[i] == expand_rank(rest)[i - head.len()]);
            }
        }
    }
}

/// Every square of a well-formed board field holds a piece code.
pub proof fn lemma_placement_codes(p: Seq<char>, i: int)
    requires
        placement_ok(p),
        0 <= i < 64,
    ensures
        def::is_square_code(placement_squares(p)[i]),
{
    let r = split(p, '/')[7 - i / 8];
    assert(rank_ok(r));
    lemma_expand_rank_codes(r);
}

} // verus!
