use foxsee::bitmask::BitMask;
use foxsee::def;
use foxsee::eval::{get_pawn_phase, get_phase, Evaluator};
use foxsee::prng::XorshiftPrng;
use foxsee::state::State;

fn keys() -> Vec<Vec<u64>> {
    XorshiftPrng::new().create_prn_table(def::BOARD_SIZE, def::PIECE_CODE_RANGE)
}

#[test]
fn test_phase_start_position() {
    let zob_keys = keys();
    let bitmask = BitMask::new();
    let state = State::new("rnbqkbnr/pppppppp/8/8/8/8/PPPPPPPP/RNBQKBNR w KQkq - 0 1", &zob_keys, &bitmask);
    assert_eq!(96, get_phase(&state));
    assert_eq!(16, get_pawn_phase(&state));
}

#[test]
fn test_phase_endgame() {
    let zob_keys = keys();
    let bitmask = BitMask::new();
    let state = State::new("8/2p5/3p4/KP5r/1R3p1k/8/4P1P1/8 w - - 0 1", &zob_keys, &bitmask);
    assert_eq!(16, get_phase(&state));
    assert_eq!(6, get_pawn_phase(&state));
}

#[test]
fn test_material_draw() {
    let zob_keys = keys();
    let bitmask = BitMask::new();
    let evaluator = Evaluator::new();

    let state = State::new("8/8/4k3/8/8/3NK3/8/8 w - - 0 1", &zob_keys, &bitmask);
    assert!(evaluator.is_material_draw(&state));

    let state = State::new("8/8/4k3/8/8/3BK3/8/8 w - - 0 1", &zob_keys, &bitmask);
    assert!(evaluator.is_material_draw(&state));

    let state = State::new("8/8/4k3/8/8/2NNK3/8/8 w - - 0 1", &zob_keys, &bitmask);
    assert!(!evaluator.is_material_draw(&state));

    let state = State::new("8/8/4k3/8/8/3PK3/8/8 w - - 0 1", &zob_keys, &bitmask);
    assert!(!evaluator.is_material_draw(&state));
}

#[test]
fn test_eval_materials_balanced() {
    let zob_keys = foxsee::prng::XorshiftPrng::new().create_prn_table(foxsee::def::BOARD_SIZE, foxsee::def::PIECE_CODE_RANGE);
    let bitmask = foxsee::bitmask::BitMask::new();
    let state = foxsee::state::State::new(foxsee::uci::FEN_START_POS, &zob_keys, &bitmask);
    let evaluator = foxsee::eval::Evaluator::new();
    assert_eq!(0, evaluator.eval_materials(&state));
}

#[test]
fn test_eval_materials_phase_scaling() {
    let zob_keys = foxsee::prng::XorshiftPrng::new().create_prn_table(foxsee::def::BOARD_SIZE, foxsee::def::PIECE_CODE_RANGE);
    let bitmask = foxsee::bitmask::BitMask::new();
    let mut evaluator = foxsee::eval::Evaluator::new();
    evaluator.params.mp_q_val = 50;
    evaluator.params.pp_p_val = 32;

    // one white queen: 1000 + 50 * 16 / 96
    let state = foxsee::state::State::new("4k3/8/8/8/8/8/8/3QK3 w - - 0 1", &zob_keys, &bitmask);
    assert_eq!(1008, evaluator.eval_materials(&state));

    // one black queen: the scaled part rounds toward zero
    let state = foxsee::state::State::new("3qk3/8/8/8/8/8/8/4K3 w - - 0 1", &zob_keys, &bitmask);
    assert_eq!(-1008, evaluator.eval_materials(&state));

    // two white pawns against one black pawn: 100 + 32 * 3 / 16
    let state = foxsee::state::State::new("4k3/4p3/8/8/8/8/3PP3/4K3 w - - 0 1", &zob_keys, &bitmask);
    assert_eq!(106, evaluator.eval_materials(&state));
}

#[test]
fn test_get_score_sign() {
    let zob_keys = keys();
    let bitmask = BitMask::new();
    let w = State::new("4k3/8/8/8/8/8/8/4K3 w - - 0 1", &zob_keys, &bitmask);
    let b = State::new("4k3/8/8/8/8/8/8/4K3 b - - 0 1", &zob_keys, &bitmask);
    assert_eq!(1, foxsee::eval::get_score_sign(&w));
    assert_eq!(-1, foxsee::eval::get_score_sign(&b));
}

#[test]
fn test_extract_features_start_position() {
    let zob_keys = keys();
    let bitmask = BitMask::new();
    let mut state = State::new(foxsee::uci::FEN_START_POS, &zob_keys, &bitmask);
    let evaluator = Evaluator::new();
    let squares_before = state.squares;
    let bitboard_w_before = state.bitboard.w_all;
    let (w, b) = evaluator.extract_features(&mut state);
    assert_eq!(squares_before, state.squares);
    assert_eq!(bitboard_w_before, state.bitboard.w_all);

    for f in [&w, &b] {
        // knights reach two free squares each; bishops, rooks and the queen are shut in
        assert_eq!(4, f.n_mobility_count);
        assert_eq!(0, f.n_stuck_count);
        assert_eq!(2, f.b_stuck_count);
        assert_eq!(2, f.r_stuck_count);
        assert_eq!(1, f.q_stuck_count);
        assert_eq!(0, f.passer_count);
        // no own pawn strictly behind or ahead on a neighbouring file: the rule counts
        // every pawn of the start position as isolated
        assert_eq!(8, f.isolated_pawn_count);
        assert_eq!(0, f.doubled_pawn_count);
        assert_eq!(1, f.king_cas_rights_count);
        assert_eq!(0, f.king_caslted_count);
        assert_eq!(0, f.pin_count);
        assert_eq!(8, f.pk_attack_count);
    }
    assert_eq!(w.unprotected_sqr_count, b.unprotected_sqr_count);
    assert_eq!(w.p_sqr_count, b.p_sqr_count);
}

#[test]
fn test_extract_features_pin_and_passer() {
    let zob_keys = keys();
    let bitmask = BitMask::new();
    // the white knight on e2 shields its king from the rook on e8; the a-pawn is passed
    let mut state = State::new("4r1k1/8/8/8/P7/8/4N3/4K3 w - - 0 1", &zob_keys, &bitmask);
    let evaluator = Evaluator::new();
    let (w, _b) = evaluator.extract_features(&mut state);
    assert_eq!(1, w.passer_count);
    assert_eq!(2, w.passer_rank_count);
    assert_eq!(2, w.isolated_pawn_count);
    assert!(w.pin_count >= 1);
}

#[test]
fn test_eval_state_weighs_features() {
    let zob_keys = keys();
    let bitmask = BitMask::new();
    let mut evaluator = Evaluator::new();
    evaluator.params.mp_tempo_val = 96;

    // symmetric start: only the tempo bonus is left, for either side to move
    let mut state = State::new(foxsee::uci::FEN_START_POS, &zob_keys, &bitmask);
    assert_eq!(96, evaluator.eval_state(&mut state));
    let mut state = State::new("rnbqkbnr/pppppppp/8/8/8/8/PPPPPPPP/RNBQKBNR b KQkq - 0 1", &zob_keys, &bitmask);
    assert_eq!(96, evaluator.eval_state(&mut state));

    // without black's b8 knight: 345 of material, 10 per point of knight mobility (4
    // against 2) and the default 7 per knight square value (2 against 1), the positional
    // part scaled by the phase 92 of 96
    let mut evaluator = Evaluator::new();
    evaluator.params.mp_n_mob_base_val = 10;
    let mut state = State::new("r1bqkbnr/pppppppp/8/8/8/8/PPPPPPPP/RNBQKBNR w KQkq - 0 1", &zob_keys, &bitmask);
    assert_eq!(345 + (10 * 2 + 7 * 1) * 92 / 96, evaluator.eval_state(&mut state));
    // from black's side the sign turns
    let mut state = State::new("r1bqkbnr/pppppppp/8/8/8/8/PPPPPPPP/RNBQKBNR b KQkq - 0 1", &zob_keys, &bitmask);
    assert_eq!(-(345 + (10 * 2 + 7 * 1) * 92 / 96), evaluator.eval_state(&mut state));
}

#[test]
fn test_eval_side_flip_negates() {
    let board_keys = foxsee::prng::XorshiftPrng::new().create_prn_table(foxsee::def::BOARD_SIZE, foxsee::def::PIECE_CODE_RANGE);
    let bitmask = foxsee::bitmask::BitMask::new();
    let evaluator = foxsee::eval::Evaluator::new();
    let mut s = foxsee::state::State::new("r1bqkb1r/pppp1ppp/2n2n2/4p3/2B1P3/5N2/PPPP1PPP/RNBQK2R w KQkq - 4 4", &board_keys, &bitmask);
    let mut s2 = foxsee::state::State::new("r1bqkb1r/pppp1ppp/2n2n2/4p3/2B1P3/5N2/PPPP1PPP/RNBQK2R b KQkq - 4 4", &board_keys, &bitmask);
    let a = evaluator.eval_state(&mut s);
    let b = evaluator.eval_state(&mut s2);
    assert_eq!(a, -b);
}
