//! The commands of the Universal Chess Interface that the engine understands, read
//! from one line of text.
use vstd::prelude::*;
use vstd::string::StrSliceExecFns;
use vstd::string::is_ascii;
use vstd::string::StringExecFns;
use vstd::utf8::is_ascii_chars;
use crate::def;
use crate::util::{self, is_sqr_notation, sqr_index};
use crate::config::{is_int_text, int_text_value, parse_u128, is_uint_text_upto};
use crate::text::{split, split_ranges, ranges_text, str_eq};
use crate::state::{State, StateModel};

verus! {

pub const DEFAULT_MOVS_TO_GO: u128 = 50;
pub const DEFAULT_MOVS_TO_GO_NO_INCREMENT: u128 = 60;

pub const FEN_START_POS: &'static str = "rnbqkbnr/pppppppp/8/8/8/8/PPPPPPPP/RNBQKBNR w KQkq - 0 1";

/// A move as the interface writes it: the two squares, the promotion letter if any,
/// and the text it came from.
pub struct Rawmov {
    pub from: usize,
    pub to: usize,
    pub promo: String,
    pub origin_mov_str: String,
}

/// One side's clock.
pub struct TimeInfo {
    pub all_time_millis: u128,
    pub moves_to_go: u128,
    pub increment_millis: u128,
}

pub enum UciCommand {
    Noop,
    Reset,
    IgnoredOption,
    Perft(u8),
    SetHashSize(usize),
    Position(String, Vec<Rawmov>),
    PrintDebugInfo,
    StartSearchWithTime(u128),
    StartSearchWithComplextTimeControl((TimeInfo, TimeInfo)),
    StartSearchToDepth(u8),
    StartSearchInfinite,
}

/// Text in long algebraic notation: two square names and, for a promotion, a fifth letter.
pub open spec fn is_mov_str(s: Seq<char>) -> bool {
    &&& s.len() >= 4
    &&& is_sqr_notation(s)
    &&& is_sqr_notation(s.subrange(2, 4))
}

/// The promotion letter of a move text: its fifth character when it has exactly five.
pub open spec fn promo_part(s: Seq<char>) -> Seq<char> {
    if s.len() == 5 { s.subrange(4, 5) } else { Seq::empty() }
}

/// Reads a move such as `e2e4` or `a7a8q`.
pub fn parse_mov_str(mov_str: &str) -> (r: Rawmov)
    requires
        is_ascii(mov_str),
        is_mov_str(mov_str@),
    ensures
        r.from == sqr_index(mov_str@),
        r.to == sqr_index(mov_str@.subrange(2, 4)),
        r.promo@ == promo_part(mov_str@),
        r.origin_mov_str@ == mov_str@,
{
    let from = util::map_sqr_chars_to_index(mov_str.get_char(0), mov_str.get_char(1));
    let to = util::map_sqr_chars_to_index(mov_str.get_char(2), mov_str.get_char(3));
    let promo: String = if mov_str.unicode_len() == 5 {
        mov_str.substring_char(4, 5).to_owned()
    } else {
        String::new()
    };
    Rawmov { from, to, promo, origin_mov_str: mov_str.to_owned() }
}


/// What `format_mov` writes `parse_mov_str` reads back: for a move between two squares
/// of the board, the text is an ASCII move text whose squares are the move's squares and
/// whose promotion part is the promotion letter, if any.
pub proof fn lemma_format_parse_mov(mov: u32)
    requires
        util::mov_from(mov) < 64,
        util::mov_to(mov) < 64,
    ensures
        mov_token_ok(util::mov_notation(mov)),
        sqr_index(util::mov_notation(mov)) == util::mov_from(mov),
        sqr_index(util::mov_notation(mov).subrange(2, 4)) == util::mov_to(mov),
        promo_part(util::mov_notation(mov)) == if util::mov_promo(mov) != 0 {
            seq![util::promo_char_of(util::mov_promo(mov))]
        } else {
            Seq::<char>::empty()
        },
{
    let f = util::mov_from(mov) as int;
    let t = util::mov_to(mov) as int;
    util::lemma_sqr_notation_round_trip(f);
    util::lemma_sqr_notation_round_trip(t);
    let a = util::sqr_notation(f);
    let b = util::sqr_notation(t);
    assert(util::decimal((f / 8 + 1) as nat).len() == 1);
    assert(util::decimal((t / 8 + 1) as nat).len() == 1);
    assert(a.len() == 2 && b.len() == 2);
    let n = util::mov_notation(mov);
    assert(n.subrange(0, 4) =~= a + b);
    assert(n.subrange(2, 4) =~= b);
    assert(n[0] == a[0] && n[1] == a[1]);
    if util::mov_promo(mov) != 0 {
        assert(n.subrange(4, 5) =~= seq![util::promo_char_of(util::mov_promo(mov))]);
    }
    assert forall|i: int| 0 <= i < n.len() implies '\0' <= #[trigger] n[i] <= '\u{7f}' by {
        if i < 2 {
            assert(n[i] == a[i]);
        } else if i < 4 {
            assert(n[i] == b[i - 2]);
        }
    }
}

/// A word that `str::parse` reads as an unsigned integer of at most `max`.
pub open spec fn uint_ok(x: Seq<char>, max: int) -> bool {
    is_int_text(x, false) && int_text_value(x, false) <= max
}

/// The unsigned integer a word stands for.
pub open spec fn val(x: Seq<char>) -> int {
    int_text_value(x, false)
}

/// The `i`-th word is `w`.
pub open spec fn word(t: Seq<Seq<char>>, i: int, w: Seq<char>) -> bool {
    0 <= i < t.len() && t[i] == w
}

/// A move word that `parse_mov_str` reads.
pub open spec fn mov_token_ok(x: Seq<char>) -> bool {
    is_ascii_chars(x) && is_mov_str(x)
}

/// The hash size in megabytes, once turned into entries, fits in `usize`.
pub open spec fn hash_ok(mb: int) -> bool {
    let ratio = (mb / def::MIN_HASH_SIZE_MB as int) as usize;
    (ratio != 0 && ratio & ((ratio - 1) as usize) == 0) ==> ratio * def::MIN_HASH_SIZE_UNIT <= usize::MAX
}

/// `go wtime W btime B [winc I binc J] [movestogo M]` has its numbers where they are read.
pub open spec fn wtime_ok(t: Seq<Seq<char>>) -> bool {
    &&& t.len() > 4
    &&& uint_ok(t[2], u128::MAX as int)
    &&& t[3] == "btime"@
    &&& uint_ok(t[4], u128::MAX as int)
    &&& if word(t, 5, "movestogo"@) {
        t.len() > 6 && uint_ok(t[6], u128::MAX as int)
    } else if word(t, 9, "movestogo"@) {
        &&& t[5] == "winc"@ ==> uint_ok(t[6], u128::MAX as int)
        &&& t[7] == "binc"@ ==> uint_ok(t[8], u128::MAX as int)
        &&& t.len() > 10 && uint_ok(t[10], u128::MAX as int)
    } else if t.len() > 5 {
        &&& t[5] == "winc"@ ==> t.len() > 6 && uint_ok(t[6], u128::MAX as int)
        &&& t.len() > 7
        &&& t[7] == "binc"@ ==> t.len() > 8 && uint_ok(t[8], u128::MAX as int)
    } else {
        true
    }
}

/// `go movestogo M wtime W btime B [winc I binc J]` has its numbers where they are read.
pub open spec fn movestogo_ok(t: Seq<Seq<char>>) -> bool {
    &&& t.len() > 6
    &&& uint_ok(t[2], u128::MAX as int)
    &&& t[3] == "wtime"@
    &&& uint_ok(t[4], u128::MAX as int)
    &&& t[5] == "btime"@
    &&& uint_ok(t[6], u128::MAX as int)
    &&& t.len() > 7 ==> {
        &&& t[7] == "winc"@ ==> t.len() > 8 && uint_ok(t[8], u128::MAX as int)
        &&& t.len() > 9
        &&& t[9] == "binc"@ ==> t.len() > 10 && uint_ok(t[10], u128::MAX as int)
    }
}

/// A `go` command with a known sub-command and its numbers in place.
pub open spec fn go_ok(t: Seq<Seq<char>>) -> bool {
    &&& t.len() > 1
    &&& {
        ||| t[1] == "movestogo"@ && movestogo_ok(t)
        ||| t[1] == "wtime"@ && wtime_ok(t)
        ||| t[1] == "movetime"@ && t.len() > 2 && uint_ok(t[2], u128::MAX as int)
        ||| t[1] == "depth"@ && t.len() > 2 && uint_ok(t[2], u8::MAX as int)
        ||| t[1] == "infinite"@
        ||| t[1] == "ponder"@
    }
}

/// The command lines that `process_uci_cmd` reads: the words each command reads are there
/// and read as what they should be.
pub open spec fn uci_ok(s: Seq<char>) -> bool {
    let t = split(s, ' ');
    let c = t[0];
    &&& c == "setoption"@ ==> t.len() > 2 && (t[2] == "Hash"@ ==>
            t.len() > 4 && uint_ok(t[4], usize::MAX as int) && hash_ok(val(t[4])))
    &&& c == "position"@ ==> t.len() > 1 && (t[1] == "startpos"@ ==>
            forall|i: int| 3 <= i < t.len() ==> #[trigger] mov_token_ok(t[i]))
    &&& c == "go"@ ==> go_ok(t)
    &&& c == "perft"@ ==> t.len() > 1 && uint_ok(t[1], u8::MAX as int)
}

/// Words joined with single spaces.
pub open spec fn join_words(ts: Seq<Seq<char>>) -> Seq<char>
    decreases ts.len(),
{
    if ts.len() == 0 {
        Seq::empty()
    } else if ts.len() == 1 {
        ts[0]
    } else {
        join_words(ts.drop_last()) + seq![' '] + ts.last()
    }
}

/// `m` is the move that the word `x` gives.
pub open spec fn rawmov_of(m: Rawmov, x: Seq<char>) -> bool {
    &&& m.from == sqr_index(x)
    &&& m.to == sqr_index(x.subrange(2, 4))
    &&& m.promo@ == promo_part(x)
    &&& m.origin_mov_str@ == x
}

/// Both clocks of a time control command.
pub open spec fn clocks_are(r: UciCommand, wtime: int, btime: int, mtg: int, winc: int, binc: int) -> bool {
    r matches UciCommand::StartSearchWithComplextTimeControl((w, b))
        && w.all_time_millis == wtime && w.moves_to_go == mtg && w.increment_millis == winc
        && b.all_time_millis == btime && b.moves_to_go == mtg && b.increment_millis == binc
}

/// The command that a `go` line gives.
pub open spec fn go_result(t: Seq<Seq<char>>, r: UciCommand) -> bool {
    let g = t[1];
    if g == "movestogo"@ {
        clocks_are(r, val(t[4]), val(t[6]), val(t[2]),
            if t.len() > 7 && t[7] == "winc"@ { val(t[8]) } else { 0 },
            if t.len() > 7 && t[9] == "binc"@ { val(t[10]) } else { 0 })
    } else if g == "wtime"@ {
        clocks_are(r, val(t[2]), val(t[4]),
            if word(t, 5, "movestogo"@) { val(t[6]) } else if word(t, 9, "movestogo"@) { val(t[10]) }
                else if t.len() > 5 { DEFAULT_MOVS_TO_GO as int } else { DEFAULT_MOVS_TO_GO_NO_INCREMENT as int },
            if !word(t, 5, "movestogo"@) && t.len() > 5 && t[5] == "winc"@ { val(t[6]) } else { 0 },
            if !word(t, 5, "movestogo"@) && t.len() > 5 && t[7] == "binc"@ { val(t[8]) } else { 0 })
    } else if g == "movetime"@ {
        r matches UciCommand::StartSearchWithTime(ms) && ms == val(t[2])
    } else if g == "depth"@ {
        r matches UciCommand::StartSearchToDepth(d) && d == val(t[2])
    } else if g == "infinite"@ {
        r is StartSearchInfinite
    } else {
        r is Noop
    }
}

/// The command that a line gives: by its first word, and for `setoption`, `position`,
/// `go` and `perft` by the words after it; lines the engine does not act on give `Noop`.
pub open spec fn uci_result(s: Seq<char>, r: UciCommand) -> bool {
    let t = split(s, ' ');
    let c = t[0];
    if c == "printdebug"@ {
        r is PrintDebugInfo
    } else if c == "setoption"@ {
        if t[2] == "Hash"@ {
            let ratio = (val(t[4]) / def::MIN_HASH_SIZE_MB as int) as usize;
            if ratio == 0 || ratio & ((ratio - 1) as usize) != 0 {
                r is IgnoredOption
            } else {
                r matches UciCommand::SetHashSize(n) && n == ratio * def::MIN_HASH_SIZE_UNIT
            }
        } else {
            r is IgnoredOption
        }
    } else if c == "ucinewgame"@ {
        r is Reset
    } else if c == "position"@ {
        if t[1] == "startpos"@ {
            r matches UciCommand::Position(fen, movs) && fen@ == FEN_START_POS@
                && movs@.len() == (if t.len() > 3 { t.len() - 3 } else { 0 })
                && forall|i: int| 0 <= i < movs@.len() ==> #[trigger] rawmov_of(movs@[i], t[i + 3])
        } else if t[1] == "fen"@ {
            r matches UciCommand::Position(fen, movs) && fen@ == join_words(t.subrange(2, t.len() as int))
                && movs@.len() == 0
        } else {
            r is Noop
        }
    } else if c == "go"@ {
        go_result(t, r)
    } else if c == "perft"@ {
        r matches UciCommand::Perft(d) && d == val(t[1])
    } else {
        r is Noop
    }
}

/// The command words differ from each other.
proof fn lemma_words_distinct()
    ensures
        "movestogo"@ != "wtime"@,
        "movestogo"@ != "movetime"@,
        "movestogo"@ != "depth"@,
        "movestogo"@ != "infinite"@,
        "movestogo"@ != "ponder"@,
        "wtime"@ != "movetime"@,
        "wtime"@ != "depth"@,
        "wtime"@ != "infinite"@,
        "wtime"@ != "ponder"@,
        "movetime"@ != "depth"@,
        "movetime"@ != "infinite"@,
        "movetime"@ != "ponder"@,
        "depth"@ != "infinite"@,
        "depth"@ != "ponder"@,
        "infinite"@ != "ponder"@,
        "movestogo"@ != "winc"@,
        "movestogo"@ != "binc"@,
        "winc"@ != "binc"@,
        "printdebug"@ != "setoption"@,
        "printdebug"@ != "ucinewgame"@,
        "printdebug"@ != "position"@,
        "printdebug"@ != "go"@,
        "printdebug"@ != "perft"@,
        "setoption"@ != "ucinewgame"@,
        "setoption"@ != "position"@,
        "setoption"@ != "go"@,
        "setoption"@ != "perft"@,
        "ucinewgame"@ != "position"@,
        "ucinewgame"@ != "go"@,
        "ucinewgame"@ != "perft"@,
        "position"@ != "go"@,
        "position"@ != "perft"@,
        "go"@ != "perft"@,
        "startpos"@ != "fen"@,
{
    reveal_strlit("binc");
    reveal_strlit("depth");
    reveal_strlit("fen");
    reveal_strlit("go");
    reveal_strlit("infinite");
    reveal_strlit("movestogo");
    reveal_strlit("movetime");
    reveal_strlit("perft");
    reveal_strlit("ponder");
    reveal_strlit("position");
    reveal_strlit("printdebug");
    reveal_strlit("setoption");
    reveal_strlit("startpos");
    reveal_strlit("ucinewgame");
    reveal_strlit("winc");
    reveal_strlit("wtime");
    assert("movestogo"@.len() != "wtime"@.len());
    assert("movestogo"@.len() != "movetime"@.len());
    assert("movestogo"@.len() != "depth"@.len());
    assert("movestogo"@.len() != "infinite"@.len());
    assert("movestogo"@.len() != "ponder"@.len());
    assert("wtime"@.len() != "movetime"@.len());
    assert("wtime"@[0] != "depth"@[0]);
    assert("wtime"@.len() != "infinite"@.len());
    assert("wtime"@.len() != "ponder"@.len());
    assert("movetime"@.len() != "depth"@.len());
    assert("movetime"@[0] != "infinite"@[0]);
    assert("movetime"@.len() != "ponder"@.len());
    assert("depth"@.len() != "infinite"@.len());
    assert("depth"@.len() != "ponder"@.len());
    assert("infinite"@.len() != "ponder"@.len());
    assert("movestogo"@.len() != "winc"@.len());
    assert("movestogo"@.len() != "binc"@.len());
    assert("winc"@[0] != "binc"@[0]);
    assert("printdebug"@.len() != "setoption"@.len());
    assert("printdebug"@[0] != "ucinewgame"@[0]);
    assert("printdebug"@.len() != "position"@.len());
    assert("printdebug"@.len() != "go"@.len());
    assert("printdebug"@.len() != "perft"@.len());
    assert("setoption"@.len() != "ucinewgame"@.len());
    assert("setoption"@.len() != "position"@.len());
    assert("setoption"@.len() != "go"@.len());
    assert("setoption"@.len() != "perft"@.len());
    assert("ucinewgame"@.len() != "position"@.len());
    assert("ucinewgame"@.len() != "go"@.len());
    assert("ucinewgame"@.len() != "perft"@.len());
    assert("position"@.len() != "go"@.len());
    assert("position"@.len() != "perft"@.len());
    assert("go"@.len() != "perft"@.len());
    assert("startpos"@.len() != "fen"@.len());
}

/// The `i`-th word of the line.
fn token<'a>(s: &'a str, rs: &Vec<(usize, usize)>, i: usize) -> (r: &'a str)
    requires
        ranges_text(s@, rs@) == split(s@, ' '),
        forall|k: int| 0 <= k < rs@.len() ==> (#[trigger] rs@[k]).0 <= rs@[k].1 <= s@.len(),
        i < rs@.len(),
    ensures
        r@ == split(s@, ' ')[i as int],
{
    let (a, b) = rs[i];
    proof { assert(ranges_text(s@, rs@)[i as int] == s@.subrange(a as int, b as int)); }
    s.substring_char(a, b)
}

/// Whether the `i`-th word of the line is `w`.
fn token_is(s: &str, rs: &Vec<(usize, usize)>, i: usize, w: &str) -> (r: bool)
    requires
        ranges_text(s@, rs@) == split(s@, ' '),
        forall|k: int| 0 <= k < rs@.len() ==> (#[trigger] rs@[k]).0 <= rs@[k].1 <= s@.len(),
    ensures
        r == word(split(s@, ' '), i as int, w@),
{
    if i < rs.len() {
        str_eq(token(s, rs, i), w)
    } else {
        false
    }
}

/// The number the `i`-th word of the line gives.
fn token_u128(s: &str, rs: &Vec<(usize, usize)>, i: usize) -> (r: u128)
    requires
        ranges_text(s@, rs@) == split(s@, ' '),
        forall|k: int| 0 <= k < rs@.len() ==> (#[trigger] rs@[k]).0 <= rs@[k].1 <= s@.len(),
        i < rs@.len(),
        uint_ok(split(s@, ' ')[i as int], u128::MAX as int),
    ensures
        r == val(split(s@, ' ')[i as int]),
{
    parse_u128(token(s, rs, i))
}

fn clocks(wtime: u128, btime: u128, movs_to_go: u128, winc: u128, binc: u128) -> (r: UciCommand)
    ensures
        clocks_are(r, wtime as int, btime as int, movs_to_go as int, winc as int, binc as int),
{
    UciCommand::StartSearchWithComplextTimeControl((
        TimeInfo {
            all_time_millis: wtime,
            moves_to_go: movs_to_go,
            increment_millis: winc,
        },
        TimeInfo {
            all_time_millis: btime,
            moves_to_go: movs_to_go,
            increment_millis: binc,
        },
    ))
}

fn process_time_control(s: &str, rs: &Vec<(usize, usize)>) -> (r: UciCommand)
    requires
        ranges_text(s@, rs@) == split(s@, ' '),
        forall|k: int| 0 <= k < rs@.len() ==> (#[trigger] rs@[k]).0 <= rs@[k].1 <= s@.len(),
        split(s@, ' ').len() > 1,
        split(s@, ' ')[1] == "wtime"@,
        wtime_ok(split(s@, ' ')),
    ensures
        go_result(split(s@, ' '), r),
{
    proof { lemma_words_distinct(); }
    let ghost t = split(s@, ' ');
    let wtime = token_u128(s, rs, 2);
    let btime = token_u128(s, rs, 4);

    let movs_to_go;
    let mut winc: u128 = 0;
    let mut binc: u128 = 0;

    if token_is(s, rs, 5, "movestogo") {
        movs_to_go = token_u128(s, rs, 6);
    } else if token_is(s, rs, 9, "movestogo") {
        if token_is(s, rs, 5, "winc") {
            winc = token_u128(s, rs, 6);
        }
        if token_is(s, rs, 7, "binc") {
            binc = token_u128(s, rs, 8);
        }
        movs_to_go = token_u128(s, rs, 10);
    } else if rs.len() > 5 {
        if token_is(s, rs, 5, "winc") {
            winc = token_u128(s, rs, 6);
        }
        if token_is(s, rs, 7, "binc") {
            binc = token_u128(s, rs, 8);
        }
        movs_to_go = DEFAULT_MOVS_TO_GO;
    } else {
        movs_to_go = DEFAULT_MOVS_TO_GO_NO_INCREMENT;
    }

    clocks(wtime, btime, movs_to_go, winc, binc)
}

fn process_time_control_with_movestogo(s: &str, rs: &Vec<(usize, usize)>) -> (r: UciCommand)
    requires
        ranges_text(s@, rs@) == split(s@, ' '),
        forall|k: int| 0 <= k < rs@.len() ==> (#[trigger] rs@[k]).0 <= rs@[k].1 <= s@.len(),
        split(s@, ' ').len() > 1,
        split(s@, ' ')[1] == "movestogo"@,
        movestogo_ok(split(s@, ' ')),
    ensures
        go_result(split(s@, ' '), r),
{
    proof { lemma_words_distinct(); }
    let movs_to_go = token_u128(s, rs, 2);
    let wtime = token_u128(s, rs, 4);
    let btime = token_u128(s, rs, 6);

    let mut winc: u128 = 0;
    let mut binc: u128 = 0;

    if rs.len() > 7 {
        if token_is(s, rs, 7, "winc") {
            winc = token_u128(s, rs, 8);
        }
        if token_is(s, rs, 9, "binc") {
            binc = token_u128(s, rs, 10);
        }
    }

    clocks(wtime, btime, movs_to_go, winc, binc)
}

fn process_go_cmd(s: &str, rs: &Vec<(usize, usize)>) -> (r: UciCommand)
    requires
        ranges_text(s@, rs@) == split(s@, ' '),
        forall|k: int| 0 <= k < rs@.len() ==> (#[trigger] rs@[k]).0 <= rs@[k].1 <= s@.len(),
        go_ok(split(s@, ' ')),
    ensures
        go_result(split(s@, ' '), r),
{
    proof { lemma_words_distinct(); }
    if token_is(s, rs, 1, "movestogo") {
        process_time_control_with_movestogo(s, rs)
    } else if token_is(s, rs, 1, "wtime") {
        process_time_control(s, rs)
    } else if token_is(s, rs, 1, "movetime") {
        UciCommand::StartSearchWithTime(token_u128(s, rs, 2))
    } else if token_is(s, rs, 1, "depth") {
        UciCommand::StartSearchToDepth(token_u128(s, rs, 2) as u8)
    } else if token_is(s, rs, 1, "infinite") {
        UciCommand::StartSearchInfinite
    } else {
        UciCommand::Noop
    }
}

/// The words from the third on, joined with single spaces.
fn join_from(s: &str, rs: &Vec<(usize, usize)>, start: usize) -> (r: String)
    requires
        ranges_text(s@, rs@) == split(s@, ' '),
        forall|k: int| 0 <= k < rs@.len() ==> (#[trigger] rs@[k]).0 <= rs@[k].1 <= s@.len(),
        start <= rs@.len(),
    ensures
        r@ == join_words(split(s@, ' ').subrange(start as int, rs@.len() as int)),
{
    let ghost t = split(s@, ' ');
    let mut out = String::new();
    let mut i = start;
    proof {
        reveal_strlit(" ");
        assert(t.subrange(start as int, start as int) =~= Seq::<Seq<char>>::empty());
    }
    while i < rs.len()
        invariant
            ranges_text(s@, rs@) == split(s@, ' '),
            forall|k: int| 0 <= k < rs@.len() ==> (#[trigger] rs@[k]).0 <= rs@[k].1 <= s@.len(),
            t == split(s@, ' '),
            t.len() == rs@.len(),
            start <= i <= rs@.len(),
            out@ == join_words(t.subrange(start as int, i as int)),
        decreases rs@.len() - i,
    {
        let w = token(s, rs, i);
        let ghost before = t.subrange(start as int, i as int);
        let ghost after = t.subrange(start as int, i + 1);
        assert(after.drop_last() =~= before);
        assert(after.last() == t[i as int]);
        if i > start {
            proof { reveal_strlit(" "); }
            out.append(" ");
        } else {
            assert(after.len() == 1);
        }
        out.append(w);
        proof {
            if i > start {
                assert(out@ =~= join_words(before) + seq![' '] + t[i as int]);
            } else {
                assert(out@ =~= t[i as int]);
            }
        }
        i = i + 1;
    }
    out
}

/// Reads one line of the interface into the command it asks for.
pub fn process_uci_cmd(uci_cmd: &str) -> (r: UciCommand)
    requires
        uci_ok(uci_cmd@),
    ensures
        uci_result(uci_cmd@, r),
{
    proof { lemma_words_distinct(); }
    let ghost t = split(uci_cmd@, ' ');
    let rs = split_ranges(uci_cmd, ' ');
    assert(t.len() == rs@.len());

    if token_is(uci_cmd, &rs, 0, "printdebug") {
        UciCommand::PrintDebugInfo
    } else if token_is(uci_cmd, &rs, 0, "setoption") {
        if token_is(uci_cmd, &rs, 2, "Hash") {
            let hash_size_mb = token_u128(uci_cmd, &rs, 4) as usize;
            let hash_ratio = hash_size_mb / def::MIN_HASH_SIZE_MB;

            if hash_ratio == 0 || hash_ratio & (hash_ratio - 1) != 0 {
                return UciCommand::IgnoredOption;
            }

            UciCommand::SetHashSize(hash_ratio * def::MIN_HASH_SIZE_UNIT)
        } else {
            UciCommand::IgnoredOption
        }
    } else if token_is(uci_cmd, &rs, 0, "ucinewgame") {
        UciCommand::Reset
    } else if token_is(uci_cmd, &rs, 0, "position") {
        if token_is(uci_cmd, &rs, 1, "startpos") {
            let mut mov_list: Vec<Rawmov> = Vec::new();
            let mut i: usize = 3;
            while i < rs.len()
                invariant
                    ranges_text(uci_cmd@, rs@) == split(uci_cmd@, ' '),
                    forall|k: int| 0 <= k < rs@.len() ==> (#[trigger] rs@[k]).0 <= rs@[k].1 <= uci_cmd@.len(),
                    t == split(uci_cmd@, ' '),
                    t.len() == rs@.len(),
                    forall|k: int| 3 <= k < t.len() ==> #[trigger] mov_token_ok(t[k]),
                    3 <= i,
                    i <= rs@.len() || mov_list@.len() == 0,
                    mov_list@.len() == (if i > 3 { i - 3 } else { 0 }),
                    forall|k: int| 0 <= k < mov_list@.len() ==> #[trigger] rawmov_of(mov_list@[k], t[k + 3]),
                decreases rs@.len() - i,
            {
                let w = token(uci_cmd, &rs, i);
                assert(mov_token_ok(t[i as int]));
                mov_list.push(parse_mov_str(w));
                i = i + 1;
            }
            UciCommand::Position(FEN_START_POS.to_owned(), mov_list)
        } else if token_is(uci_cmd, &rs, 1, "fen") {
            UciCommand::Position(join_from(uci_cmd, &rs, 2), Vec::new())
        } else {
            UciCommand::Noop
        }
    } else if token_is(uci_cmd, &rs, 0, "go") {
        process_go_cmd(uci_cmd, &rs)
    } else if token_is(uci_cmd, &rs, 0, "perft") {
        UciCommand::Perft(token_u128(uci_cmd, &rs, 1) as u8)
    } else {
        UciCommand::Noop
    }
}


/// The promotion piece that a letter names for `player`.
pub open spec fn promo_piece(player: u8, letter: Seq<char>) -> u8 {
    if player == def::PLAYER_W {
        if letter == "q"@ { def::WQ } else if letter == "r"@ { def::WR } else if letter == "b"@ { def::WB } else { def::WN }
    } else {
        if letter == "q"@ { def::BQ } else if letter == "r"@ { def::BR } else if letter == "b"@ { def::BB } else { def::BN }
    }
}

/// The four king moves of the interface that castle.
pub open spec fn is_castle_text(x: Seq<char>) -> bool {
    x == "e1g1"@ || x == "e1c1"@ || x == "e8g8"@ || x == "e8c8"@
}

/// A move of the interface that `rawmov_kind` can place: its origin is on the board and a
/// promotion letter names a piece.
pub open spec fn rawmov_ok(raw: Rawmov) -> bool {
    &&& raw.from < 64
    &&& raw.promo@.len() > 0 ==> (raw.promo@ == "q"@ || raw.promo@ == "r"@ || raw.promo@ == "b"@ || raw.promo@ == "n"@)
}

/// The kind and promotion piece of a move of the interface in the position `m`: a promotion
/// when it has a letter, castling for a king's castling text, en passant for a pawn onto the
/// en-passant square, a double step for a pawn going two ranks, a regular move otherwise.
pub open spec fn rawmov_kind_of(m: StateModel, raw: Rawmov) -> (u8, u8) {
    let moving = m.squares[raw.from as int];
    if raw.promo@.len() > 0 {
        (def::MOV_PROMO, promo_piece(m.player, raw.promo@))
    } else if def::kind_of(moving) == def::KIND_K && is_castle_text(raw.origin_mov_str@) {
        (def::MOV_CAS, 0)
    } else if def::kind_of(moving) == def::KIND_P && raw.to == m.enp_square {
        (def::MOV_ENP, 0)
    } else if def::kind_of(moving) == def::KIND_P && (raw.from - raw.to == 16 || raw.to - raw.from == 16) {
        (def::MOV_CR_ENP, 0)
    } else {
        (def::MOV_REG, 0)
    }
}

proof fn lemma_letters_distinct()
    ensures
        "q"@ != "r"@,
        "q"@ != "b"@,
        "q"@ != "n"@,
        "r"@ != "b"@,
        "r"@ != "n"@,
        "b"@ != "n"@,
{
    reveal_strlit("q");
    reveal_strlit("r");
    reveal_strlit("b");
    reveal_strlit("n");
    assert("q"@[0] != "r"@[0]);
    assert("q"@[0] != "b"@[0]);
    assert("q"@[0] != "n"@[0]);
    assert("r"@[0] != "b"@[0]);
    assert("r"@[0] != "n"@[0]);
    assert("b"@[0] != "n"@[0]);
}

/// The kind and promotion piece with which a move of the interface is played in `state`.
pub fn rawmov_kind(state: &State, raw: &Rawmov) -> (r: (u8, u8))
    requires
        rawmov_ok(*raw),
    ensures
        r == rawmov_kind_of(state@, *raw),
{
    proof { lemma_letters_distinct(); }
    let promo = raw.promo.as_str();
    if promo.unicode_len() > 0 {
        let player_w = state.player == def::PLAYER_W;
        let piece = if str_eq(promo, "q") {
            if player_w { def::WQ } else { def::BQ }
        } else if str_eq(promo, "r") {
            if player_w { def::WR } else { def::BR }
        } else if str_eq(promo, "b") {
            if player_w { def::WB } else { def::BB }
        } else {
            if player_w { def::WN } else { def::BN }
        };
        return (def::MOV_PROMO, piece);
    }

    let moving_piece = state.squares[raw.from];
    let text = raw.origin_mov_str.as_str();
    if def::is_k(moving_piece)
        && (str_eq(text, "e1g1") || str_eq(text, "e1c1") || str_eq(text, "e8g8") || str_eq(text, "e8c8")) {
        return (def::MOV_CAS, 0);
    }

    if def::is_p(moving_piece) {
        if raw.to == state.enp_square {
            return (def::MOV_ENP, 0);
        } else if (raw.from >= raw.to && raw.from - raw.to == 16) || (raw.to >= raw.from && raw.to - raw.from == 16) {
            return (def::MOV_CR_ENP, 0);
        }
    }

    (def::MOV_REG, 0)
}


/// Whether the `i`-th word of the line is an unsigned integer of at most `max`.
fn token_uint_ok(s: &str, rs: &Vec<(usize, usize)>, i: usize, max: u128) -> (r: bool)
    requires
        ranges_text(s@, rs@) == split(s@, ' '),
        forall|k: int| 0 <= k < rs@.len() ==> (#[trigger] rs@[k]).0 <= rs@[k].1 <= s@.len(),
    ensures
        r == (i < split(s@, ' ').len() && uint_ok(split(s@, ' ')[i as int], max as int)),
{
    i < rs.len() && is_uint_text_upto(token(s, rs, i), max)
}

/// Whether a word is a move in long algebraic notation that `parse_mov_str` reads.
fn is_mov_token(w: &str) -> (r: bool)
    ensures
        r == mov_token_ok(w@),
{
    if !w.is_ascii() || w.unicode_len() < 4 {
        return false;
    }
    let a = w.get_char(0);
    let b = w.get_char(1);
    let c = w.get_char(2);
    let d = w.get_char(3);
    proof {
        assert(w@.subrange(2, 4)[0] == c);
        assert(w@.subrange(2, 4)[1] == d);
    }
    'a' <= a && a <= 'h' && '1' <= b && b <= '9' && 'a' <= c && c <= 'h' && '1' <= d && d <= '9'
}

fn wtime_check(s: &str, rs: &Vec<(usize, usize)>) -> (r: bool)
    requires
        ranges_text(s@, rs@) == split(s@, ' '),
        forall|k: int| 0 <= k < rs@.len() ==> (#[trigger] rs@[k]).0 <= rs@[k].1 <= s@.len(),
    ensures
        r == wtime_ok(split(s@, ' ')),
{
    let m = u128::MAX;
    if !(rs.len() > 4 && token_uint_ok(s, rs, 2, m) && token_is(s, rs, 3, "btime") && token_uint_ok(s, rs, 4, m)) {
        return false;
    }
    if token_is(s, rs, 5, "movestogo") {
        token_uint_ok(s, rs, 6, m)
    } else if token_is(s, rs, 9, "movestogo") {
        (!token_is(s, rs, 5, "winc") || token_uint_ok(s, rs, 6, m))
            && (!token_is(s, rs, 7, "binc") || token_uint_ok(s, rs, 8, m))
            && token_uint_ok(s, rs, 10, m)
    } else if rs.len() > 5 {
        (!token_is(s, rs, 5, "winc") || token_uint_ok(s, rs, 6, m))
            && rs.len() > 7
            && (!token_is(s, rs, 7, "binc") || token_uint_ok(s, rs, 8, m))
    } else {
        true
    }
}

fn movestogo_check(s: &str, rs: &Vec<(usize, usize)>) -> (r: bool)
    requires
        ranges_text(s@, rs@) == split(s@, ' '),
        forall|k: int| 0 <= k < rs@.len() ==> (#[trigger] rs@[k]).0 <= rs@[k].1 <= s@.len(),
    ensures
        r == movestogo_ok(split(s@, ' ')),
{
    let m = u128::MAX;
    rs.len() > 6 && token_uint_ok(s, rs, 2, m) && token_is(s, rs, 3, "wtime") && token_uint_ok(s, rs, 4, m)
        && token_is(s, rs, 5, "btime") && token_uint_ok(s, rs, 6, m)
        && (rs.len() <= 7 || (
            (!token_is(s, rs, 7, "winc") || token_uint_ok(s, rs, 8, m))
            && rs.len() > 9
            && (!token_is(s, rs, 9, "binc") || token_uint_ok(s, rs, 10, m))))
}

/// Whether `process_uci_cmd` can read the line: the words each command reads are there
/// and read as what they should be.
pub fn is_uci_cmd_ok(uci_cmd: &str) -> (r: bool)
    ensures
        r == uci_ok(uci_cmd@),
{
    proof { lemma_words_distinct(); }
    let ghost t = split(uci_cmd@, ' ');
    let rs = split_ranges(uci_cmd, ' ');
    let s = uci_cmd;
    if token_is(s, &rs, 0, "setoption") {
        if rs.len() <= 2 {
            return false;
        }
        if token_is(s, &rs, 2, "Hash") {
            if !token_uint_ok(s, &rs, 4, usize::MAX as u128) {
                return false;
            }
            let mb = token_u128(s, &rs, 4) as usize;
            let ratio = mb / def::MIN_HASH_SIZE_MB;
            if ratio != 0 && ratio & (ratio - 1) == 0 {
                let bound = usize::MAX / def::MIN_HASH_SIZE_UNIT;
                assert((ratio <= bound) == (ratio * def::MIN_HASH_SIZE_UNIT <= usize::MAX)) by (nonlinear_arith)
                    requires bound == usize::MAX / def::MIN_HASH_SIZE_UNIT, def::MIN_HASH_SIZE_UNIT == 524288;
                return ratio <= bound;
            }
        }
        true
    } else if token_is(s, &rs, 0, "position") {
        if rs.len() <= 1 {
            return false;
        }
        if token_is(s, &rs, 1, "startpos") {
            let mut i: usize = 3;
            let mut ok = true;
            while i < rs.len() && ok
                invariant
                    ranges_text(s@, rs@) == split(s@, ' '),
                    forall|k: int| 0 <= k < rs@.len() ==> (#[trigger] rs@[k]).0 <= rs@[k].1 <= s@.len(),
                    t == split(s@, ' '),
                    t.len() == rs@.len(),
                    3 <= i,
                    forall|k: int| 3 <= k < i && k < t.len() ==> #[trigger] mov_token_ok(t[k]),
                    !ok ==> i < t.len() && !mov_token_ok(t[i as int]),
                decreases rs@.len() - i, (if ok { 1int } else { 0 }),
            {
                ok = is_mov_token(token(s, &rs, i));
                if ok {
                    i = i + 1;
                }
            }
            return ok;
        }
        true
    } else if token_is(s, &rs, 0, "go") {
        if rs.len() <= 1 {
            return false;
        }
        if token_is(s, &rs, 1, "movestogo") {
            movestogo_check(s, &rs)
        } else if token_is(s, &rs, 1, "wtime") {
            wtime_check(s, &rs)
        } else if token_is(s, &rs, 1, "movetime") {
            token_uint_ok(s, &rs, 2, u128::MAX)
        } else if token_is(s, &rs, 1, "depth") {
            token_uint_ok(s, &rs, 2, u8::MAX as u128)
        } else {
            token_is(s, &rs, 1, "infinite") || token_is(s, &rs, 1, "ponder")
        }
    } else if token_is(s, &rs, 0, "perft") {
        token_uint_ok(s, &rs, 1, u8::MAX as u128)
    } else {
        true
    }
}

/// Whether `rawmov_kind` can place the move.
pub fn is_rawmov_ok(raw: &Rawmov) -> (r: bool)
    ensures
        r == rawmov_ok(*raw),
{
    let promo = raw.promo.as_str();
    raw.from < 64 && (promo.unicode_len() == 0
        || str_eq(promo, "q") || str_eq(promo, "r") || str_eq(promo, "b") || str_eq(promo, "n"))
}


/// A king on e1 or e8 told to step two squares along its back rank (e1g1, e1c1, e8g8 or
/// e8c8) castles, whatever the rest of the position.
pub proof fn lemma_castle_text_castles(m: StateModel, raw: Rawmov)
    requires
        raw.promo@.len() == 0,
        def::kind_of(m.squares[raw.from as int]) == def::KIND_K,
        (raw.from == 4 && (raw.to == 6 || raw.to == 2)) || (raw.from == 60 && (raw.to == 62 || raw.to == 58)),
        raw.origin_mov_str@ == util::sqr_notation(raw.from as int) + util::sqr_notation(raw.to as int),
    ensures
        rawmov_kind_of(m, raw) == (def::MOV_CAS, 0u8),
{
    reveal_strlit("e1g1");
    reveal_strlit("e1c1");
    reveal_strlit("e8g8");
    reveal_strlit("e8c8");
    let t = raw.origin_mov_str@;
    assert(util::decimal(1nat) == seq!['1']);
    assert(util::decimal(8nat) == seq!['8']);
    if raw.from == 4 && raw.to == 6 {
        assert(t =~= "e1g1"@);
    } else if raw.from == 4 {
        assert(t =~= "e1c1"@);
    } else if raw.to == 62 {
        assert(t =~= "e8g8"@);
    } else {
        assert(t =~= "e8c8"@);
    }
}

/// A promotion piece of `player`: queen, rook, bishop or knight of that side.
pub open spec fn is_promo_piece(player: u8, piece: u8) -> bool {
    if player == def::PLAYER_W {
        piece == def::WQ || piece == def::WR || piece == def::WB || piece == def::WN
    } else {
        piece == def::BQ || piece == def::BR || piece == def::BB || piece == def::BN
    }
}

/// The letter of a promotion kind in move notation: q, r, b, n.
pub open spec fn kind_letter(kind: u8) -> char {
    if kind == def::KIND_Q { 'q' } else if kind == def::KIND_R { 'r' } else if kind == def::KIND_B { 'b' } else { 'n' }
}

/// The letter written for a promotion piece names its kind, for either side.
pub proof fn lemma_promo_letter_names_kind(player: u8, piece: u8)
    requires
        is_promo_piece(player, piece),
    ensures
        util::promo_char_of(piece) == kind_letter(def::kind_of(piece)),
{
}

/// A promotion written by `format_mov` is read back as the same promotion: a move text
/// whose promotion part is what formatting writes for a promotion piece of the side to move
/// is played as that very promotion.
pub proof fn lemma_promo_round_trip(m: StateModel, mov: u32, raw: Rawmov)
    requires
        util::mov_from(mov) < 64,
        util::mov_to(mov) < 64,
        is_promo_piece(m.player, util::mov_promo(mov)),
        raw.promo@ == promo_part(util::mov_notation(mov)),
    ensures
        rawmov_kind_of(m, raw) == (def::MOV_PROMO, util::mov_promo(mov)),
{
    lemma_format_parse_mov(mov);
    lemma_letters_distinct();
    reveal_strlit("q");
    reveal_strlit("r");
    reveal_strlit("b");
    reveal_strlit("n");
    let p = util::mov_promo(mov);
    assert(p != 0);
    let l = raw.promo@;
    assert(l == seq![util::promo_char_of(p)]);
    if util::promo_char_of(p) == 'q' {
        assert(l =~= "q"@);
    } else if util::promo_char_of(p) == 'r' {
        assert(l =~= "r"@);
    } else if util::promo_char_of(p) == 'b' {
        assert(l =~= "b"@);
    } else {
        assert(l =~= "n"@);
    }
}

} // verus!
