use foxsee::bitmask::BitMask;
use foxsee::def;
use foxsee::prng::XorshiftPrng;
use foxsee::search::SearchEngine;
use foxsee::state::State;
use foxsee::clock::SearchClock;
use foxsee::eval::{self, Evaluator};
use foxsee::time_control::TimeCapacity;
use foxsee::util;
use foxsee::zob_keys;
use std::sync::atomic::AtomicBool;
use std::sync::Arc;

fn keys() -> Vec<Vec<u64>> {
    XorshiftPrng::new().create_prn_table(def::BOARD_SIZE, def::PIECE_CODE_RANGE)
}

#[test]
fn test_perft_1() {
    let zob_keys = keys();
    let bitmask = BitMask::new();
    let mut state = State::new("rnbqkbnr/pppppppp/8/8/8/8/PPPPPPPP/RNBQKBNR w KQkq - 0 1", &zob_keys, &bitmask);
    let search_engine = SearchEngine::new(131072);

    assert_eq!(20, search_engine.perft(&mut state, 1));
    assert_eq!(400, search_engine.perft(&mut state, 2));
    assert_eq!(8902, search_engine.perft(&mut state, 3));
}

#[test]
fn test_perft_6() {
    let zob_keys = keys();
    let bitmask = BitMask::new();
    let mut state = State::new("8/P1k5/K7/8/8/8/8/8 w - - 0 1", &zob_keys, &bitmask);
    let search_engine = SearchEngine::new(131072);

    assert_eq!(92683, search_engine.perft(&mut state, 6));
}

#[test]
fn test_perft_2_to_depth_6() {
    let zob_keys = keys();
    let bitmask = BitMask::new();
    let mut state = State::new("8/2p5/3p4/KP5r/1R3p1k/8/4P1P1/8 w - - 0 1", &zob_keys, &bitmask);
    let search_engine = SearchEngine::new(131072);

    assert_eq!(14, search_engine.perft(&mut state, 1));
    assert_eq!(191, search_engine.perft(&mut state, 2));
    assert_eq!(2812, search_engine.perft(&mut state, 3));
    assert_eq!(43238, search_engine.perft(&mut state, 4));
    assert_eq!(674624, search_engine.perft(&mut state, 5));
    assert_eq!(11030083, search_engine.perft(&mut state, 6));
}

#[test]
fn test_perft_3_to_depth_4() {
    let zob_keys = keys();
    let bitmask = BitMask::new();
    let mut state = State::new("rnbq1k1r/pp1Pbppp/2p5/8/2B5/8/PPP1NnPP/RNBQK2R w KQ - 1 8", &zob_keys, &bitmask);
    let search_engine = SearchEngine::new(131072);

    assert_eq!(44, search_engine.perft(&mut state, 1));
    assert_eq!(1486, search_engine.perft(&mut state, 2));
    assert_eq!(62379, search_engine.perft(&mut state, 3));
    assert_eq!(2103487, search_engine.perft(&mut state, 4));
}

#[test]
fn test_perft_4_to_depth_4() {
    let zob_keys = keys();
    let bitmask = BitMask::new();
    let mut state = State::new("r4rk1/1pp1qppp/p1np1n2/2b1p1B1/2B1P1b1/P1NP1N2/1PP1QPPP/R4RK1 w - - 0 10", &zob_keys, &bitmask);
    let search_engine = SearchEngine::new(131072);

    assert_eq!(46, search_engine.perft(&mut state, 1));
    assert_eq!(2079, search_engine.perft(&mut state, 2));
    assert_eq!(89890, search_engine.perft(&mut state, 3));
    assert_eq!(3894594, search_engine.perft(&mut state, 4));
}

#[test]
fn test_perft_5() {
    let zob_keys = keys();
    let bitmask = BitMask::new();
    let mut state = State::new("r2q1rk1/pP1p2pp/Q4n2/bbp1p3/Np6/1B3NBn/pPPP1PPP/R3K2R b KQ - 0 1", &zob_keys, &bitmask);
    let search_engine = SearchEngine::new(131072);

    assert_eq!(6, search_engine.perft(&mut state, 1));
    assert_eq!(264, search_engine.perft(&mut state, 2));
    assert_eq!(9467, search_engine.perft(&mut state, 3));
    assert_eq!(422333, search_engine.perft(&mut state, 4));
    assert_eq!(15833292, search_engine.perft(&mut state, 5));
}

#[test]
fn test_killer_table() {
    let mut search_engine = SearchEngine::new(1024);
    assert_eq!((0, 0), search_engine.get_killer_mov(5));

    search_engine.update_killer_table(5, 100, 10, 3);
    assert_eq!((100, 0), search_engine.get_killer_mov(5));

    search_engine.update_killer_table(5, 200, 20, 4);
    assert_eq!((200, 100), search_engine.get_killer_mov(5));

    // scores and reaches worse than both: no change
    search_engine.update_killer_table(5, 300, 5, 1);
    assert_eq!((200, 100), search_engine.get_killer_mov(5));

    // worse than the primary, as good as the secondary: replaces the secondary
    search_engine.update_killer_table(5, 400, 15, 3);
    assert_eq!((200, 400), search_engine.get_killer_mov(5));

    // an empty ply two plies further down borrows both killers
    assert_eq!((200, 400), search_engine.get_killer_mov(7));

    // plies past the tables are ignored
    search_engine.update_killer_table(200, 500, 50, 9);
    assert_eq!((0, 0), search_engine.get_killer_mov(200));
}

#[test]
fn test_history_tables() {
    let mut search_engine = SearchEngine::new(1024);
    search_engine.update_history_table(def::PLAYER_W, 3, 12, 28);
    assert_eq!(27, search_engine.history_table[1][12][28]);
    search_engine.update_history_table(def::PLAYER_W, 2, 12, 28);
    assert_eq!(35, search_engine.history_table[1][12][28]);

    assert_eq!(1, search_engine.butterfly_table[0][52][36]);
    search_engine.update_butterfly_table(def::PLAYER_B, 52, 36);
    assert_eq!(2, search_engine.butterfly_table[0][52][36]);
}

#[test]
fn test_passed_pawn() {
    let zob_keys = keys();
    let bitmask = BitMask::new();
    let state = State::new("8/8/4k3/8/3P4/8/8/4K3 w - - 0 1", &zob_keys, &bitmask);
    assert!(foxsee::search::is_passed_pawn(&state, def::WP, 35));

    let state = State::new("8/4p3/4k3/8/3P4/8/8/4K3 w - - 0 1", &zob_keys, &bitmask);
    assert!(!foxsee::search::is_passed_pawn(&state, def::WP, 35));
    assert!(!foxsee::search::is_passed_pawn(&state, def::WN, 35));
}

#[test]
fn test_mvv_lva() {
    let zob_keys = keys();
    let bitmask = BitMask::new();
    let state = State::new("4k3/8/8/3q4/4P3/8/8/4K3 w - - 0 1", &zob_keys, &bitmask);
    let search_engine = SearchEngine::new(1024);
    // pawn takes queen: 1000 - 100
    assert_eq!(900, search_engine.mvv_lva(&state, 28, 35, 0));
}

#[test]
fn test_see_undefended_capture() {
    let zob_keys = keys();
    let bitmask = BitMask::new();
    let mut state = State::new("4k3/8/8/3q4/4P3/8/8/4K3 w - - 0 1", &zob_keys, &bitmask);
    let search_engine = SearchEngine::new(1024);
    let squares_before = state.squares.clone();
    let hash_before = state.hash_key;
    // pawn takes an undefended queen
    assert_eq!(1000, search_engine.see(&mut state, 28, 35, def::MOV_REG, 0));
    assert_eq!(squares_before, state.squares);
    assert_eq!(hash_before, state.hash_key);
    assert_eq!(def::PLAYER_W, state.player);
}

#[test]
fn test_see_defended_knight() {
    let zob_keys = keys();
    let bitmask = BitMask::new();
    let mut state = State::new("4k3/8/2p5/3n4/4P3/8/8/4K3 w - - 0 1", &zob_keys, &bitmask);
    let search_engine = SearchEngine::new(1024);
    // pawn takes a knight, the pawn is taken back: 345 - 100
    assert_eq!(245, search_engine.see(&mut state, 28, 35, def::MOV_REG, 0));
}

#[test]
fn test_see_losing_capture() {
    let zob_keys = keys();
    let bitmask = BitMask::new();
    let mut state = State::new("4k3/8/2p5/3p4/8/8/8/3RK3 w - - 0 1", &zob_keys, &bitmask);
    let search_engine = SearchEngine::new(1024);
    // rook takes a defended pawn and is lost: 100 - 500
    assert_eq!(-400, search_engine.see(&mut state, 3, 35, def::MOV_REG, 0));
}

#[test]
fn test_see_exchange_no_attacker() {
    let zob_keys = keys();
    let bitmask = BitMask::new();
    let mut state = State::new("4k3/8/8/3P4/8/8/8/4K3 b - - 0 1", &zob_keys, &bitmask);
    let search_engine = SearchEngine::new(1024);
    // black has nothing that attacks d5
    assert_eq!(0, search_engine.see_exchange(&mut state, 35, def::WQ));
}


#[test]
fn test_counter_mov_table() {
    let zob_keys = keys();
    let bitmask = BitMask::new();
    let mut state = State::new(foxsee::uci::FEN_START_POS, &zob_keys, &bitmask);
    let mut search_engine = SearchEngine::new(1024);

    // no move played yet: nothing to answer
    search_engine.update_counter_mov_table(&state, 77);
    assert_eq!(0, search_engine.get_counter_mov(&state));

    state.do_mov(12, 28, def::MOV_CR_ENP, 0);
    assert_eq!(0, search_engine.get_counter_mov(&state));
    let answer = foxsee::util::encode_u32_mov(52, 36, def::MOV_CR_ENP, 0);
    search_engine.update_counter_mov_table(&state, answer);
    assert_eq!(answer, search_engine.get_counter_mov(&state));
    assert_eq!(answer, search_engine.counter_mov_table[def::PLAYER_B as usize - 1][12][28]);

    state.undo_mov(12, 28, def::MOV_CR_ENP);
    assert_eq!(0, search_engine.get_counter_mov(&state));
}

fn search_clock() -> SearchClock {
    SearchClock::start(60000, Arc::new(AtomicBool::new(false)))
}

#[test]
fn test_search_finds_back_rank_mate() {
    let board_keys = keys();
    let bitmask = BitMask::new();
    let zk = zob_keys::init();
    let mut state = State::new("6k1/5ppp/8/8/8/8/8/R5K1 w - - 0 1", &board_keys, &bitmask);
    let mut engine = SearchEngine::new(131072);
    let capacity = TimeCapacity { main_time_millis: 60000, extra_time_millis: 0 };
    let best = engine.search(&mut state, &zk, &search_clock(), capacity, 3);
    assert_eq!(util::encode_u32_mov(0, 56, def::MOV_REG, 0), best);
    assert!(engine.infos.last().unwrap().score > eval::TERM_VAL);
    assert_eq!(def::PLAYER_W, state.player);
}

#[test]
fn test_ab_search_checkmated() {
    let board_keys = keys();
    let bitmask = BitMask::new();
    let zk = zob_keys::init();
    let mut state = State::new("R5k1/5ppp/8/8/8/8/8/6K1 b - - 0 1", &board_keys, &bitmask);
    let mut engine = SearchEngine::new(131072);
    let score = engine.ab_search(&mut state, &zk, &search_clock(), true, false, -eval::MATE_VAL, eval::MATE_VAL, 1, 0);
    assert_eq!(-eval::MATE_VAL, score);
}

#[test]
fn test_ab_search_stalemate() {
    let board_keys = keys();
    let bitmask = BitMask::new();
    let zk = zob_keys::init();
    let mut state = State::new("7k/5Q2/6K1/8/8/8/8/8 b - - 0 1", &board_keys, &bitmask);
    let mut engine = SearchEngine::new(131072);
    let score = engine.ab_search(&mut state, &zk, &search_clock(), false, false, -eval::MATE_VAL, eval::MATE_VAL, 1, 0);
    assert_eq!(0, score);
}

#[test]
fn test_q_search_quiet_start_is_static_eval() {
    let board_keys = keys();
    let bitmask = BitMask::new();
    let zk = zob_keys::init();
    let mut state = State::new("rnbqkbnr/pppppppp/8/8/8/8/PPPPPPPP/RNBQKBNR w KQkq - 0 1", &board_keys, &bitmask);
    let mut engine = SearchEngine::new(131072);
    let expected = Evaluator::new().eval_state(&mut state);
    let score = engine.q_search(&mut state, &zk, &search_clock(), -eval::MATE_VAL, eval::MATE_VAL, 0);
    assert_eq!(expected, score);
    assert_eq!(expected as i128, Evaluator::new().eval_state_wide(&mut state));
}

#[test]
fn test_search_keeps_position() {
    let board_keys = keys();
    let bitmask = BitMask::new();
    let zk = zob_keys::init();
    let fen = "r1bqkbnr/pppp1ppp/2n5/4p3/4P3/5N2/PPPP1PPP/RNBQKB1R w KQkq - 2 3";
    let mut state = State::new(fen, &board_keys, &bitmask);
    let before = state.to_board_string();
    let mut engine = SearchEngine::new(131072);
    let capacity = TimeCapacity { main_time_millis: 60000, extra_time_millis: 0 };
    let best = engine.search(&mut state, &zk, &search_clock(), capacity, 3);
    assert!(best != 0);
    assert_eq!(before, state.to_board_string());
    assert_eq!(def::PLAYER_W, state.player);
}

#[test]
fn test_isqrt() {
    assert_eq!(0, foxsee::search::isqrt(0));
    assert_eq!(1, foxsee::search::isqrt(3));
    assert_eq!(2, foxsee::search::isqrt(4));
    assert_eq!(255, foxsee::search::isqrt(255 * 255));
}

#[test]
fn test_q_search_bare_kings_is_draw() {
    let board_keys = keys();
    let bitmask = BitMask::new();
    let zk = zob_keys::init();
    let mut state = State::new("8/8/4k3/8/8/4K3/8/8 w - - 0 1", &board_keys, &bitmask);
    let mut engine = SearchEngine::new(131072);
    assert_eq!(0, engine.q_search(&mut state, &zk, &search_clock(), -eval::MATE_VAL, eval::MATE_VAL, 0));
    assert!(!engine.aborted);
}

#[test]
fn test_q_search_takes_hanging_queen() {
    let board_keys = keys();
    let bitmask = BitMask::new();
    let zk = zob_keys::init();
    let mut after_capture = State::new("7k/8/8/R7/8/8/8/7K b - - 0 1", &board_keys, &bitmask);
    let expected = -Evaluator::new().eval_state(&mut after_capture);
    let mut state = State::new("7k/8/8/q7/8/8/8/R6K w - - 0 1", &board_keys, &bitmask);
    let mut engine = SearchEngine::new(131072);
    let score = engine.q_search(&mut state, &zk, &search_clock(), -eval::MATE_VAL, eval::MATE_VAL, 0);
    assert_eq!(expected, score);
    assert!(score > 0);
}

#[test]
fn test_ab_search_hash_cut_off() {
    let board_keys = keys();
    let bitmask = BitMask::new();
    let zk = zob_keys::init();
    let mut state = State::new("rnbqkbnr/pppppppp/8/8/8/8/PPPPPPPP/RNBQKBNR w KQkq - 0 1", &board_keys, &bitmask);
    let mut engine = SearchEngine::new(131072);
    engine.set_hash(&state, &zk, 5, 0, foxsee::hashtable::HASH_TYPE_EXACT, 123, 0, 0);
    assert_eq!(123, engine.ab_search(&mut state, &zk, &search_clock(), false, false, 0, 1, 3, 0));
}

#[test]
fn test_root_best_mov_after_search() {
    let board_keys = keys();
    let bitmask = BitMask::new();
    let zk = zob_keys::init();
    let mut state = State::new("6k1/5ppp/8/8/8/8/8/R5K1 w - - 0 1", &board_keys, &bitmask);
    let mut engine = SearchEngine::new(131072);
    assert_eq!(0, engine.root_best_mov(&mut state, &zk));
    let capacity = TimeCapacity { main_time_millis: 60000, extra_time_millis: 0 };
    let best = engine.search(&mut state, &zk, &search_clock(), capacity, 2);
    assert_eq!(best, engine.root_best_mov(&mut state, &zk));
    assert_eq!(best, engine.infos.last().unwrap().best_mov);
}

#[test]
fn test_perft_checked_matches_perft() {
    let board_keys = keys();
    let bitmask = BitMask::new();
    let mut state = State::new("r3k2r/p1ppqpb1/bn2pnp1/3PN3/1p2P3/2N2Q1p/PPPBBPPP/R3K2R w KQkq - 0 1", &board_keys, &bitmask);
    let engine = SearchEngine::new(131072);
    assert_eq!(Some(48), engine.perft_checked(&mut state, 1));
    assert_eq!(Some(2039), engine.perft_checked(&mut state, 2));
    assert_eq!(2039, engine.perft(&mut state, 2));
}
