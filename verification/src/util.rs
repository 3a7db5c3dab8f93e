//! Conversions between piece codes, square indices, move encodings and text,
//! and the bit tricks that the move masks are built on.
use vstd::prelude::*;
use vstd::string::StringExecFns;
use vstd::string::StrSliceExecFns;
use vstd::std_specs::bits::{u64_trailing_zeros, u64_leading_zeros, axiom_u64_trailing_zeros, axiom_u64_leading_zeros};
use crate::def;

verus! {

pub const MOV_ENCODE_BIT_MASK: u32 = 0xff;

pub const RANK_DIAG_MAGIC: u64 = 0x0101_0101_0101_0101;
pub const FILE_MAGIC: u64 = 0x8040_2010_0804_0201;

/// The piece code that a FEN letter stands for.
pub open spec fn piece_of_char(c: char) -> u8 {
    if c == 'K' { def::WK } else if c == 'Q' { def::WQ } else if c == 'R' { def::WR }
    else if c == 'B' { def::WB } else if c == 'N' { def::WN } else if c == 'P' { def::WP }
    else if c == 'k' { def::BK } else if c == 'q' { def::BQ } else if c == 'r' { def::BR }
    else if c == 'b' { def::BB } else if c == 'n' { def::BN } else if c == 'p' { def::BP }
    else { 0 }
}

/// The twelve letters of FEN that name a piece.
pub open spec fn is_piece_char(c: char) -> bool {
    c == 'K' || c == 'Q' || c == 'R' || c == 'B' || c == 'N' || c == 'P'
    || c == 'k' || c == 'q' || c == 'r' || c == 'b' || c == 'n' || c == 'p'
}

pub proof fn lemma_piece_of_char_is_piece(c: char)
    requires
        is_piece_char(c),
    ensures
        def::is_piece(piece_of_char(c)),
        (piece_of_char(c) as int) < def::PIECE_CODE_RANGE,
{
}

pub fn map_piece_char_to_code(piece_char: char) -> (r: u8)
    requires
        is_piece_char(piece_char),
    ensures
        r == piece_of_char(piece_char),
        def::is_piece(r),
{
    match piece_char {
        'K' => def::WK,
        'Q' => def::WQ,
        'R' => def::WR,
        'B' => def::WB,
        'N' => def::WN,
        'P' => def::WP,
        'k' => def::BK,
        'q' => def::BQ,
        'r' => def::BR,
        'b' => def::BB,
        'n' => def::BN,
        _ => def::BP,
    }
}

/// The chess glyph shown for a piece code, '-' for anything else.
pub open spec fn glyph_of(piece: u8) -> char {
    if piece == def::WK { '♔' } else if piece == def::WQ { '♕' } else if piece == def::WR { '♖' }
    else if piece == def::WB { '♗' } else if piece == def::WN { '♘' } else if piece == def::WP { '♙' }
    else if piece == def::BK { '♚' } else if piece == def::BQ { '♛' } else if piece == def::BR { '♜' }
    else if piece == def::BB { '♝' } else if piece == def::BN { '♞' } else if piece == def::BP { '♟' }
    else { '-' }
}

pub fn map_piece_code_to_char(piece_code: u8) -> (r: char)
    ensures
        r == glyph_of(piece_code),
{
    match piece_code {
        def::WK => '♔',
        def::WQ => '♕',
        def::WR => '♖',
        def::WB => '♗',
        def::WN => '♘',
        def::WP => '♙',
        def::BK => '♚',
        def::BQ => '♛',
        def::BR => '♜',
        def::BB => '♝',
        def::BN => '♞',
        def::BP => '♟',
        _ => '-',
    }
}

/// The letter that names a promotion piece in move notation, '\0' for any other code.
pub open spec fn promo_char_of(piece: u8) -> char {
    if piece == def::WQ || piece == def::BQ { 'q' }
    else if piece == def::WR || piece == def::BR { 'r' }
    else if piece == def::WB || piece == def::BB { 'b' }
    else if piece == def::WN || piece == def::BN { 'n' }
    else { '\0' }
}

pub fn map_promo_piece_to_char(piece: u8) -> (r: char)
    ensures
        r == promo_char_of(piece),
{
    match piece {
        def::WQ => 'q',
        def::WR => 'r',
        def::WB => 'b',
        def::WN => 'n',
        def::BQ => 'q',
        def::BR => 'r',
        def::BB => 'b',
        def::BN => 'n',
        _ => '\0',
    }
}

/// The letter of a file number 0..8.
pub open spec fn file_char(file: int) -> char {
    if file == 0 { 'a' } else if file == 1 { 'b' } else if file == 2 { 'c' } else if file == 3 { 'd' }
    else if file == 4 { 'e' } else if file == 5 { 'f' } else if file == 6 { 'g' } else { 'h' }
}

pub open spec fn digit_char(d: int) -> char {
    if d == 0 { '0' } else if d == 1 { '1' } else if d == 2 { '2' } else if d == 3 { '3' }
    else if d == 4 { '4' } else if d == 5 { '5' } else if d == 6 { '6' } else if d == 7 { '7' }
    else if d == 8 { '8' } else { '9' }
}

/// The decimal digits of a natural number, most significant first.
pub open spec fn decimal(n: nat) -> Seq<char>
    decreases n,
{
    if n < 10 {
        seq![digit_char(n as int)]
    } else {
        decimal(n / 10).push(digit_char((n % 10) as int))
    }
}

/// The square notation of an index: its file letter, then its rank number.
pub open spec fn sqr_notation(index: int) -> Seq<char> {
    seq![file_char(index % 8)] + decimal((index / 8 + 1) as nat)
}

fn append_digit(s: &mut String, d: usize)
    requires
        d < 10,
    ensures
        final(s)@ == old(s)@.push(digit_char(d as int)),
{
    proof {
        reveal_strlit("0"); reveal_strlit("1"); reveal_strlit("2"); reveal_strlit("3"); reveal_strlit("4");
        reveal_strlit("5"); reveal_strlit("6"); reveal_strlit("7"); reveal_strlit("8"); reveal_strlit("9");
    }
    match d {
        0 => s.append("0"),
        1 => s.append("1"),
        2 => s.append("2"),
        3 => s.append("3"),
        4 => s.append("4"),
        5 => s.append("5"),
        6 => s.append("6"),
        7 => s.append("7"),
        8 => s.append("8"),
        _ => s.append("9"),
    }
}

fn append_decimal(s: &mut String, n: usize)
    ensures
        final(s)@ == old(s)@ + decimal(n as nat),
    decreases n,
{
    if n < 10 {
        append_digit(s, n);
        assert(old(s)@.push(digit_char(n as int)) =~= old(s)@ + decimal(n as nat));
    } else {
        append_decimal(s, n / 10);
        append_digit(s, n % 10);
        assert(old(s)@ + decimal(n as nat) =~= old(s)@ + decimal((n / 10) as nat) + seq![digit_char((n % 10) as int)]);
    }
}

fn append_file(s: &mut String, file: usize)
    requires
        file < 8,
    ensures
        final(s)@ == old(s)@.push(file_char(file as int)),
{
    proof {
        reveal_strlit("a"); reveal_strlit("b"); reveal_strlit("c"); reveal_strlit("d");
        reveal_strlit("e"); reveal_strlit("f"); reveal_strlit("g"); reveal_strlit("h");
    }
    match file {
        0 => s.append("a"),
        1 => s.append("b"),
        2 => s.append("c"),
        3 => s.append("d"),
        4 => s.append("e"),
        5 => s.append("f"),
        6 => s.append("g"),
        _ => s.append("h"),
    }
}

fn append_sqr_notation(s: &mut String, index: usize)
    ensures
        final(s)@ == old(s)@ + sqr_notation(index as int),
{
    let rank = index / 8 + 1;
    let file = index % 8;
    append_file(s, file);
    append_decimal(s, rank);
    assert(old(s)@.push(file_char(file as int)) + decimal(rank as nat) =~= old(s)@ + sqr_notation(index as int));
}

pub fn map_index_to_sqr_notation(index: usize) -> (r: String)
    ensures
        r@ == sqr_notation(index as int),
{
    let mut s = String::new();
    append_sqr_notation(&mut s, index);
    assert(Seq::<char>::empty() + sqr_notation(index as int) =~= sqr_notation(index as int));
    s
}

/// The file number of a file letter.
pub open spec fn file_of_char(c: char) -> int {
    c as int - 'a' as int
}

/// Text that starts with a square name: a file letter and a rank digit from 1 to 9.
pub open spec fn is_sqr_notation(s: Seq<char>) -> bool {
    &&& s.len() >= 2
    &&& 'a' <= s[0] <= 'h'
    &&& '1' <= s[1] <= '9'
}

/// The index that square notation names (a1 is 0, h8 is 63).
pub open spec fn sqr_index(s: Seq<char>) -> int {
    (s[1] as int - '1' as int) * 8 + (s[0] as int - 'a' as int)
}

pub fn map_sqr_notation_to_index(sqr_notation: &str) -> (r: usize)
    requires
        is_sqr_notation(sqr_notation@),
    ensures
        r == sqr_index(sqr_notation@),
{
    let file_char = sqr_notation.get_char(0);
    let rank_char = sqr_notation.get_char(1);
    map_sqr_chars_to_index(file_char, rank_char)
}

/// Naming a square and reading the name back gives the square: for every index on the
/// board, its notation is square notation and denotes that index.
pub proof fn lemma_sqr_notation_round_trip(index: int)
    requires
        0 <= index < 64,
    ensures
        is_sqr_notation(sqr_notation(index)),
        sqr_index(sqr_notation(index)) == index,
{
    let rank = index / 8 + 1;
    assert(1 <= rank <= 8);
    assert(decimal(rank as nat) == seq![digit_char(rank)]);
    let s = sqr_notation(index);
    assert(s[0] == file_char(index % 8));
    assert(s[1] == digit_char(rank));
}

/// The index of the square named by a file letter and a rank digit.
pub fn map_sqr_chars_to_index(file_char: char, rank_char: char) -> (r: usize)
    requires
        'a' <= file_char <= 'h',
        '1' <= rank_char <= '9',
    ensures
        r == (rank_char as int - '1' as int) * 8 + (file_char as int - 'a' as int),
{
    let file_index = (file_char as u32) - ('a' as u32);
    let rank_index = (rank_char as u32) - ('1' as u32);
    (rank_index * 8 + file_index) as usize
}

/// The 32-bit encoding of a move: from, to, kind and promotion piece, one byte each.
pub open spec fn encode_mov(from: usize, to: usize, tp: u8, promo: u8) -> u32 {
    (from as u32) | ((to as u32) << 8u32) | ((tp as u32) << 16u32) | ((promo as u32) << 24u32)
}

pub open spec fn mov_from(rep: u32) -> usize {
    (rep & 0xff) as usize
}

pub open spec fn mov_to(rep: u32) -> usize {
    ((rep >> 8u32) & 0xff) as usize
}

pub open spec fn mov_tp(rep: u32) -> u8 {
    ((rep >> 16u32) & 0xff) as u8
}

pub open spec fn mov_promo(rep: u32) -> u8 {
    ((rep >> 24u32) & 0xff) as u8
}

pub fn encode_u32_mov(from: usize, to: usize, tp: u8, promo: u8) -> (r: u32)
    ensures
        r == encode_mov(from, to, tp, promo),
{
    from as u32 | (to as u32) << 8 | (tp as u32) << 16 | (promo as u32) << 24
}

pub fn decode_u32_mov(rep: u32) -> (r: (usize, usize, u8, u8))
    ensures
        r == (mov_from(rep), mov_to(rep), mov_tp(rep), mov_promo(rep)),
{
    (
        (rep & MOV_ENCODE_BIT_MASK) as usize,
        ((rep >> 8) & MOV_ENCODE_BIT_MASK) as usize,
        ((rep >> 16) & MOV_ENCODE_BIT_MASK) as u8,
        ((rep >> 24) & MOV_ENCODE_BIT_MASK) as u8,
    )
}

/// Decoding a move gives back what was encoded, for squares below 256.
pub proof fn lemma_decode_encode(from: usize, to: usize, tp: u8, promo: u8)
    requires
        from < 256,
        to < 256,
    ensures
        mov_from(encode_mov(from, to, tp, promo)) == from,
        mov_to(encode_mov(from, to, tp, promo)) == to,
        mov_tp(encode_mov(from, to, tp, promo)) == tp,
        mov_promo(encode_mov(from, to, tp, promo)) == promo,
{
    let f = from as u32;
    let t = to as u32;
    let p = tp as u32;
    let q = promo as u32;
    assert(f < 256 && t < 256 && p < 256 && q < 256);
    assert((f | (t << 8u32) | (p << 16u32) | (q << 24u32)) & 0xff == f) by (bit_vector)
        requires f < 256u32, t < 256u32, p < 256u32, q < 256u32;
    assert(((f | (t << 8u32) | (p << 16u32) | (q << 24u32)) >> 8u32) & 0xff == t) by (bit_vector)
        requires f < 256u32, t < 256u32, p < 256u32, q < 256u32;
    assert(((f | (t << 8u32) | (p << 16u32) | (q << 24u32)) >> 16u32) & 0xff == p) by (bit_vector)
        requires f < 256u32, t < 256u32, p < 256u32, q < 256u32;
    assert(((f | (t << 8u32) | (p << 16u32) | (q << 24u32)) >> 24u32) & 0xff == q) by (bit_vector)
        requires f < 256u32, t < 256u32, p < 256u32, q < 256u32;
}

/// The text of a move: origin square, target square, then the promotion letter if any.
pub open spec fn mov_notation(mov: u32) -> Seq<char> {
    let base = sqr_notation(mov_from(mov) as int) + sqr_notation(mov_to(mov) as int);
    if mov_promo(mov) != 0 {
        base.push(promo_char_of(mov_promo(mov)))
    } else {
        base
    }
}

fn append_promo_char(s: &mut String, piece: u8)
    ensures
        final(s)@ == old(s)@.push(promo_char_of(piece)),
{
    proof {
        reveal_strlit("q"); reveal_strlit("r"); reveal_strlit("b"); reveal_strlit("n"); reveal_strlit("\0");
    }
    if piece == def::WQ || piece == def::BQ {
        s.append("q");
    } else if piece == def::WR || piece == def::BR {
        s.append("r");
    } else if piece == def::WB || piece == def::BB {
        s.append("b");
    } else if piece == def::WN || piece == def::BN {
        s.append("n");
    } else {
        s.append("\0");
    }
}

fn append_mov(s: &mut String, mov: u32)
    ensures
        final(s)@ == old(s)@ + mov_notation(mov),
{
    let (from, to, _tp, promo) = decode_u32_mov(mov);
    append_sqr_notation(s, from);
    append_sqr_notation(s, to);
    if promo != 0 {
        append_promo_char(s, promo);
        assert(old(s)@ + sqr_notation(from as int) + sqr_notation(to as int) + seq![promo_char_of(promo)]
            =~= old(s)@ + mov_notation(mov));
    } else {
        assert(old(s)@ + sqr_notation(from as int) + sqr_notation(to as int) =~= old(s)@ + mov_notation(mov));
    }
}

pub fn format_mov(mov: u32) -> (r: String)
    ensures
        r@ == mov_notation(mov),
{
    let mut s = String::new();
    append_mov(&mut s, mov);
    assert(Seq::<char>::empty() + mov_notation(mov) =~= mov_notation(mov));
    s
}

/// The text of a principal variation: each move followed by a space, up to the first 0.
pub open spec fn pv_notation(pv: Seq<u32>) -> Seq<char>
    decreases pv.len(),
{
    if pv.len() == 0 || pv[0] == 0 {
        Seq::empty()
    } else {
        mov_notation(pv[0]).push(' ') + pv_notation(pv.drop_first())
    }
}

pub fn format_pv(pv_table: &[u32]) -> (r: String)
    ensures
        r@ == pv_notation(pv_table@),
{
    let mut pv_line = String::new();
    let mut i: usize = 0;
    proof {
        reveal_strlit(" ");
        assert(pv_table@.subrange(0, pv_table@.len() as int) =~= pv_table@);
    }
    while i < pv_table.len()
        invariant
            i <= pv_table@.len(),
            pv_line@ + pv_notation(pv_table@.subrange(i as int, pv_table@.len() as int)) == pv_notation(pv_table@),
        decreases pv_table@.len() - i,
    {
        let mov = pv_table[i];
        let ghost rest = pv_table@.subrange(i as int, pv_table@.len() as int);
        if mov == 0 {
            assert(pv_notation(rest) == Seq::<char>::empty());
            assert(pv_line@ + Seq::<char>::empty() =~= pv_line@);
            return pv_line;
        }
        let ghost before = pv_line@;
        append_mov(&mut pv_line, mov);
        pv_line.append(" ");
        proof {
            reveal_strlit(" ");
            assert(" "@ =~= seq![' ']);
            assert(rest.drop_first() =~= pv_table@.subrange(i + 1, pv_table@.len() as int));
            assert(pv_notation(rest) == mov_notation(mov).push(' ') + pv_notation(rest.drop_first()));
            assert(pv_line@ =~= before + mov_notation(mov).push(' '));
            assert(before + (mov_notation(mov).push(' ') + pv_notation(rest.drop_first()))
                =~= pv_line@ + pv_notation(rest.drop_first()));
        }
        i = i + 1;
    }
    proof {
        assert(pv_table@.subrange(i as int, pv_table@.len() as int) =~= Seq::<u32>::empty());
        assert(pv_line@ + Seq::<char>::empty() =~= pv_line@);
    }
    pv_line
}

pub open spec fn bit_of(bitboard: u64, index: u64) -> u64 {
    if bitboard & (1u64 << index) == 0 { 0 } else { 1 }
}

pub fn get_bit(bitboard: u64, index: usize) -> (r: u64)
    requires
        index < 64,
    ensures
        r == bit_of(bitboard, index as u64),
{
    if bitboard & 1u64 << index == 0 {
        0
    } else {
        1
    }
}

pub fn get_lowest_index(mask: u64) -> (r: usize)
    ensures
        r == u64_trailing_zeros(mask),
        r <= 64,
        mask != 0 ==> r < 64 && (mask >> r as u64) & 1 == 1,
        forall|j: u64| 0 <= j < r ==> #[trigger] ((mask >> j) & 1u64) == 0,
{
    proof {
        axiom_u64_trailing_zeros(mask);
    }
    mask.trailing_zeros() as usize
}

pub fn get_highest_index(mask: u64) -> (r: usize)
    requires
        mask != 0,
    ensures
        r == 63 - u64_leading_zeros(mask),
        r < 64,
        (mask >> r as u64) & 1 == 1,
        forall|j: u64| r < j < 64 ==> #[trigger] ((mask >> j) & 1u64) == 0,
{
    proof {
        axiom_u64_leading_zeros(mask);
        let sh = (63 - u64_leading_zeros(mask)) as u64;
        assert((mask >> sh) & 1 != 0 ==> (mask >> sh) & 1 == 1) by (bit_vector);
    }
    let lz = mask.leading_zeros();
    63 - lz as usize
}

/// The index a rank or diagonal occupancy gets in the sliding tables: the bytes of the board
/// summed into one (for a board with at most one bit per file, the files that are occupied).
pub open spec fn kg_rank_diag(bitboard: u64) -> u64 {
    bitboard.wrapping_mul(RANK_DIAG_MAGIC) >> 56u64
}

/// The index a file occupancy gets in the sliding tables: the file of `index` brought to
/// file a, then its squares gathered into one byte, the eighth rank lowest.
pub open spec fn kg_file(bitboard: u64, index: usize) -> u64 {
    (bitboard >> ((index & 7) as u64)).wrapping_mul(FILE_MAGIC) >> 56u64
}

pub fn kindergarten_transform_rank_diag(bitboard: u64) -> (r: u64)
    ensures
        r == kg_rank_diag(bitboard),
{
    bitboard.wrapping_mul(RANK_DIAG_MAGIC) >> 56
}

pub fn kindergarten_transform_file(bitboard: u64, index: usize) -> (r: u64)
    ensures
        r == kg_file(bitboard, index),
{
    let shift = index & 7;
    assert(index & 7 < 8) by (bit_vector);
    (bitboard >> shift).wrapping_mul(FILE_MAGIC) >> 56
}


/// The squares of one line of the board, `start + stride * d` for `d` in `0..8`.
pub open spec fn line_square(start: int, stride: int, d: int) -> int {
    start + stride * d
}

/// The occupancy of a line that the number `k` (in `0..256`) stands for: the
/// `d`-th square of the line is set when bit `7 - d` of `k` is set, so the first
/// square goes with the highest bit. Only the first `n` squares are taken.
pub open spec fn line_perm_upto(start: int, stride: int, k: u64, n: int) -> u64
    decreases n,
{
    if n <= 0 {
        0
    } else {
        let d = n - 1;
        let rest = line_perm_upto(start, stride, k, d);
        if (k >> ((7 - d) as u64)) & 1 == 1 {
            rest | (1u64 << (line_square(start, stride, d) as u64))
        } else {
            rest
        }
    }
}

/// The occupancy of a whole line for the number `k`.
pub open spec fn line_perm(start: int, stride: int, k: u64) -> u64 {
    line_perm_upto(start, stride, k, 8)
}

/// Whether `perms` lists the 256 occupancies of a line, the `k`-th being the one
/// that `k` stands for.
pub open spec fn all_line_perms(perms: Seq<u64>, start: int, stride: int) -> bool {
    &&& perms.len() == 256
    &&& forall|k: int| 0 <= k < 256 ==> #[trigger] perms[k] == line_perm(start, stride, k as u64)
}

fn line_perm_of(start: usize, stride: usize, k: u64) -> (r: u64)
    requires
        start + stride * 7 < 64,
    ensures
        r == line_perm(start as int, stride as int, k),
{
    let mut mask: u64 = 0;
    let mut d: usize = 0;
    while d < 8
        invariant
            d <= 8,
            start + stride * 7 < 64,
            mask == line_perm_upto(start as int, stride as int, k, d as int),
        decreases 8 - d,
    {
        assert(stride * d <= stride * 7) by (nonlinear_arith)
            requires d < 8;
        let sq = start + stride * d;
        if (k >> (7 - d) as u64) & 1 == 1 {
            mask = mask | (1u64 << sq as u64);
        }
        d = d + 1;
    }
    mask
}

fn gen_line_perms(start: usize, stride: usize) -> (perms: Vec<u64>)
    requires
        start + stride * 7 < 64,
    ensures
        all_line_perms(perms@, start as int, stride as int),
{
    let mut perms: Vec<u64> = Vec::new();
    let mut k: u64 = 0;
    while k < 256
        invariant
            k <= 256,
            start + stride * 7 < 64,
            perms@.len() == k,
            forall|j: int| 0 <= j < k ==> #[trigger] perms@[j] == line_perm(start as int, stride as int, j as u64),
        decreases 256 - k,
    {
        let m = line_perm_of(start, stride, k);
        perms.push(m);
        k = k + 1;
    }
    perms
}

/// All 256 occupancies of the first rank, in the order described at `line_perm`.
pub fn gen_all_perms_1st_rank() -> (r: Vec<u64>)
    ensures
        all_line_perms(r@, 0, 1),
{
    gen_line_perms(0, 1)
}

/// All 256 occupancies of the first file.
pub fn gen_all_perms_1st_file() -> (r: Vec<u64>)
    ensures
        all_line_perms(r@, 0, 8),
{
    gen_line_perms(0, 8)
}

/// All 256 occupancies of the long diagonal a1-h8.
pub fn gen_all_perms_diag_up() -> (r: Vec<u64>)
    ensures
        all_line_perms(r@, 0, 9),
{
    gen_line_perms(0, 9)
}

/// All 256 occupancies of the long diagonal h1-a8.
pub fn gen_all_perms_diag_down() -> (r: Vec<u64>)
    ensures
        all_line_perms(r@, 7, 7),
{
    gen_line_perms(7, 7)
}


/// Appends the glyph of a piece code.
pub fn append_glyph(s: &mut String, piece: u8)
    ensures
        final(s)@ == old(s)@.push(glyph_of(piece)),
{
    proof {
        reveal_strlit("♔"); reveal_strlit("♕"); reveal_strlit("♖"); reveal_strlit("♗"); reveal_strlit("♘"); reveal_strlit("♙");
        reveal_strlit("♚"); reveal_strlit("♛"); reveal_strlit("♜"); reveal_strlit("♝"); reveal_strlit("♞"); reveal_strlit("♟");
        reveal_strlit("-");
    }
    match piece {
        def::WK => s.append("♔"),
        def::WQ => s.append("♕"),
        def::WR => s.append("♖"),
        def::WB => s.append("♗"),
        def::WN => s.append("♘"),
        def::WP => s.append("♙"),
        def::BK => s.append("♚"),
        def::BQ => s.append("♛"),
        def::BR => s.append("♜"),
        def::BB => s.append("♝"),
        def::BN => s.append("♞"),
        def::BP => s.append("♟"),
        _ => s.append("-"),
    }
}

/// A line break.
pub fn append_newline(s: &mut String)
    ensures
        final(s)@ == old(s)@.push('\n'),
{
    proof { reveal_strlit("\n"); }
    s.append("\n");
}

} // verus!
