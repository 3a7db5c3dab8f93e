use foxsee::bitmask::BitMask;
use foxsee::def;
use foxsee::prng::XorshiftPrng;
use foxsee::state::State;
use foxsee::util;

#[test]
fn test_new_startpos() {
    let zob_keys = XorshiftPrng::new().create_prn_table(def::BOARD_SIZE, def::PIECE_CODE_RANGE);
    let bitmask = BitMask::new();
    let state = State::new("rnbqkbnr/pppppppp/8/8/8/8/PPPPPPPP/RNBQKBNR w KQkq - 0 1", &zob_keys, &bitmask);

    assert_eq!(0b1111, state.cas_rights);
    assert_eq!(0, state.enp_square);
    assert_eq!(def::PLAYER_W, state.player);
}

#[test]
fn test_do_move_1() {
    let zob_keys = XorshiftPrng::new().create_prn_table(def::BOARD_SIZE, def::PIECE_CODE_RANGE);
    let bitmask = BitMask::new();
    let mut state = State::new("rnbqkbnr/pppppppp/8/8/8/8/PPPPPPPP/RNBQKBNR w KQkq - 0 1", &zob_keys, &bitmask);
    assert_eq!(0b1111, state.cas_rights);
    assert_eq!(0, state.enp_square);
    assert_eq!(def::PLAYER_W, state.player);

    state.do_mov(util::map_sqr_notation_to_index("e2"), util::map_sqr_notation_to_index("e4"), def::MOV_CR_ENP, 0);
    assert_eq!(0b1111, state.cas_rights);
    assert_eq!(util::map_sqr_notation_to_index("e3"), state.enp_square);
    assert_eq!(def::PLAYER_B, state.player);

    state.undo_mov(util::map_sqr_notation_to_index("e2"), util::map_sqr_notation_to_index("e4"), def::MOV_CR_ENP);
    assert_eq!(0b1111, state.cas_rights);
    assert_eq!(0, state.enp_square);
    assert_eq!(def::PLAYER_W, state.player);
}

#[test]
fn test_do_move_2() {
    let zob_keys = XorshiftPrng::new().create_prn_table(def::BOARD_SIZE, def::PIECE_CODE_RANGE);
    let bitmask = BitMask::new();
    let mut state = State::new("r1bqk1nr/pPpp1ppp/2n5/2b1p3/2B1P3/2N2N2/P1PP1PPP/R1BQK2R w KQkq - 0 1", &zob_keys, &bitmask);
    assert_eq!(0b1111, state.cas_rights);
    assert_eq!(0, state.enp_square);
    assert_eq!(def::PLAYER_W, state.player);
    assert_eq!(def::BR, state.squares[util::map_sqr_notation_to_index("a8")]);

    state.do_mov(util::map_sqr_notation_to_index("b7"), util::map_sqr_notation_to_index("a8"), def::MOV_PROMO, def::WQ);
    assert_eq!(0b1111, state.cas_rights);
    assert_eq!(0, state.enp_square);
    assert_eq!(def::PLAYER_B, state.player);
    assert_eq!(def::WQ, state.squares[util::map_sqr_notation_to_index("a8")]);

    state.undo_mov(util::map_sqr_notation_to_index("b7"), util::map_sqr_notation_to_index("a8"), def::MOV_PROMO);
    assert_eq!(0b1111, state.cas_rights);
    assert_eq!(0, state.enp_square);
    assert_eq!(def::PLAYER_W, state.player);
    assert_eq!(def::BR, state.squares[util::map_sqr_notation_to_index("a8")]);
}

#[test]
fn test_do_move_3() {
    let zob_keys = XorshiftPrng::new().create_prn_table(def::BOARD_SIZE, def::PIECE_CODE_RANGE);
    let bitmask = BitMask::new();
    let mut state = State::new("r3k2r/pbppnppp/1bn2q2/4p3/2B5/2N1PN2/PPPP1PPP/R1BQK2R b Qkq - 0 1", &zob_keys, &bitmask);
    assert_eq!(0b0111, state.cas_rights);
    assert_eq!(0, state.enp_square);
    assert_eq!(def::PLAYER_B, state.player);
    assert_eq!(def::BK, state.squares[util::map_sqr_notation_to_index("e8")]);
    assert_eq!(def::BR, state.squares[util::map_sqr_notation_to_index("a8")]);
    assert_eq!(0, state.squares[util::map_sqr_notation_to_index("c8")]);

    state.do_mov(util::map_sqr_notation_to_index("e8"), util::map_sqr_notation_to_index("c8"), def::MOV_CAS, 0);
    assert_eq!(0b0110, state.cas_rights);
    assert_eq!(0, state.enp_square);
    assert_eq!(def::PLAYER_W, state.player);
    assert_eq!(0, state.squares[util::map_sqr_notation_to_index("e8")]);
    assert_eq!(0, state.squares[util::map_sqr_notation_to_index("a8")]);
    assert_eq!(def::BK, state.squares[util::map_sqr_notation_to_index("c8")]);
    assert_eq!(def::BR, state.squares[util::map_sqr_notation_to_index("d8")]);

    state.undo_mov(util::map_sqr_notation_to_index("e8"), util::map_sqr_notation_to_index("c8"), def::MOV_CAS);
    assert_eq!(0b0111, state.cas_rights);
    assert_eq!(0, state.enp_square);
    assert_eq!(def::PLAYER_B, state.player);
    assert_eq!(def::BK, state.squares[util::map_sqr_notation_to_index("e8")]);
    assert_eq!(def::BR, state.squares[util::map_sqr_notation_to_index("a8")]);
    assert_eq!(0, state.squares[util::map_sqr_notation_to_index("c8")]);
    assert_eq!(0, state.squares[util::map_sqr_notation_to_index("d8")]);
}

#[test]
fn test_do_move_4() {
    let zob_keys = XorshiftPrng::new().create_prn_table(def::BOARD_SIZE, def::PIECE_CODE_RANGE);
    let bitmask = BitMask::new();
    let mut state = State::new("4r1k1/pp1Q1ppp/3B4/q2p4/5P1P/P3PbPK/1P1r4/2R5 b - - 3 5", &zob_keys, &bitmask);
    assert_eq!(0b0000, state.cas_rights);
    assert_eq!(0, state.enp_square);
    assert_eq!(def::PLAYER_B, state.player);
    assert_eq!(0, state.squares[util::map_sqr_notation_to_index("e2")]);
    assert_eq!(def::BR, state.squares[util::map_sqr_notation_to_index("d2")]);

    state.do_mov(util::map_sqr_notation_to_index("d2"), util::map_sqr_notation_to_index("e2"), def::MOV_REG, 0);
    assert_eq!(0b0000, state.cas_rights);
    assert_eq!(0, state.enp_square);
    assert_eq!(def::PLAYER_W, state.player);
    assert_eq!(0, state.squares[util::map_sqr_notation_to_index("d2")]);
    assert_eq!(def::BR, state.squares[util::map_sqr_notation_to_index("e2")]);

    state.do_mov(util::map_sqr_notation_to_index("d7"), util::map_sqr_notation_to_index("e8"), def::MOV_REG, 0);
    state.do_mov(util::map_sqr_notation_to_index("e2"), util::map_sqr_notation_to_index("h2"), def::MOV_REG, 0);

    state.undo_mov(util::map_sqr_notation_to_index("e2"), util::map_sqr_notation_to_index("h2"), def::MOV_REG);
    state.undo_mov(util::map_sqr_notation_to_index("d7"), util::map_sqr_notation_to_index("e8"), def::MOV_REG);

    state.undo_mov(util::map_sqr_notation_to_index("d2"), util::map_sqr_notation_to_index("e2"), def::MOV_REG);
    assert_eq!(0b0000, state.cas_rights);
    assert_eq!(0, state.enp_square);
    assert_eq!(def::PLAYER_B, state.player);
    assert_eq!(0, state.squares[util::map_sqr_notation_to_index("e2")]);
    assert_eq!(def::BR, state.squares[util::map_sqr_notation_to_index("d2")]);
}

#[test]
fn test_do_move_5() {
    let zob_keys = XorshiftPrng::new().create_prn_table(def::BOARD_SIZE, def::PIECE_CODE_RANGE);
    let bitmask = BitMask::new();
    let mut state = State::new("r1bqkbnr/ppp1p1pp/2n5/3pPp2/3P4/8/PPP2PPP/RNBQKBNR w KQkq f6 0 1", &zob_keys, &bitmask);
    assert_eq!(0b1111, state.cas_rights);
    assert_eq!(util::map_sqr_notation_to_index("f6"), state.enp_square);
    assert_eq!(def::PLAYER_W, state.player);
    assert_eq!(0, state.squares[util::map_sqr_notation_to_index("f6")]);
    assert_eq!(def::BP, state.squares[util::map_sqr_notation_to_index("f5")]);
    assert_eq!(def::WP, state.squares[util::map_sqr_notation_to_index("e5")]);

    state.do_mov(util::map_sqr_notation_to_index("e5"), util::map_sqr_notation_to_index("f6"), def::MOV_ENP, 0);
    assert_eq!(0b1111, state.cas_rights);
    assert_eq!(0, state.enp_square);
    assert_eq!(def::PLAYER_B, state.player);
    assert_eq!(def::WP, state.squares[util::map_sqr_notation_to_index("f6")]);
    assert_eq!(0, state.squares[util::map_sqr_notation_to_index("f5")]);
    assert_eq!(0, state.squares[util::map_sqr_notation_to_index("e5")]);

    state.undo_mov(util::map_sqr_notation_to_index("e5"), util::map_sqr_notation_to_index("f6"), def::MOV_ENP);
    assert_eq!(0b1111, state.cas_rights);
    assert_eq!(util::map_sqr_notation_to_index("f6"), state.enp_square);
    assert_eq!(def::PLAYER_W, state.player);
    assert_eq!(0, state.squares[util::map_sqr_notation_to_index("f6")]);
    assert_eq!(def::BP, state.squares[util::map_sqr_notation_to_index("f5")]);
    assert_eq!(def::WP, state.squares[util::map_sqr_notation_to_index("e5")]);
}

#[test]
fn test_zob_hash_1() {
    let zob_keys = XorshiftPrng::new().create_prn_table(def::BOARD_SIZE, def::PIECE_CODE_RANGE);
    let bitmask = BitMask::new();
    let mut state = State::new("r1bqkb1r/pppp1ppp/2n2n2/4p3/2B1P3/5N2/PPPP1PPP/RNBQK2R w KQkq - 0 1", &zob_keys, &bitmask);
    let original_hash = state.hash_key;

    state.do_mov(util::map_sqr_notation_to_index("e1"), util::map_sqr_notation_to_index("g1"), def::MOV_CAS, 0);
    let hash_after_castle = state.hash_key;

    state.undo_mov(util::map_sqr_notation_to_index("e1"), util::map_sqr_notation_to_index("g1"), def::MOV_CAS);

    assert_eq!(state.hash_key, original_hash);

    state.do_mov(util::map_sqr_notation_to_index("e1"), util::map_sqr_notation_to_index("e2"), def::MOV_REG, 0);
    state.do_mov(util::map_sqr_notation_to_index("f8"), util::map_sqr_notation_to_index("e7"), def::MOV_REG, 0);

    state.do_mov(util::map_sqr_notation_to_index("h1"), util::map_sqr_notation_to_index("e1"), def::MOV_REG, 0);
    state.do_mov(util::map_sqr_notation_to_index("e7"), util::map_sqr_notation_to_index("f8"), def::MOV_REG, 0);

    state.do_mov(util::map_sqr_notation_to_index("e2"), util::map_sqr_notation_to_index("f1"), def::MOV_REG, 0);
    state.do_mov(util::map_sqr_notation_to_index("f8"), util::map_sqr_notation_to_index("e7"), def::MOV_REG, 0);

    state.do_mov(util::map_sqr_notation_to_index("f1"), util::map_sqr_notation_to_index("g1"), def::MOV_REG, 0);
    state.do_mov(util::map_sqr_notation_to_index("e7"), util::map_sqr_notation_to_index("f8"), def::MOV_REG, 0);

    state.do_mov(util::map_sqr_notation_to_index("e1"), util::map_sqr_notation_to_index("f1"), def::MOV_REG, 0);

    assert_eq!(state.hash_key, hash_after_castle);
}

#[test]
fn test_zob_hash_2() {
    let zob_keys = XorshiftPrng::new().create_prn_table(def::BOARD_SIZE, def::PIECE_CODE_RANGE);
    let bitmask = BitMask::new();
    let mut state = State::new("r3kb1r/ppp2ppp/2np1n2/4p3/2B1P3/3P1N2/PPP2PPP/RNBQK2R b KQkq - 0 1", &zob_keys, &bitmask);
    let original_hash = state.hash_key;

    state.do_mov(util::map_sqr_notation_to_index("e8"), util::map_sqr_notation_to_index("c8"), def::MOV_CAS, 0);
    let hash_after_castle = state.hash_key;

    state.undo_mov(util::map_sqr_notation_to_index("e8"), util::map_sqr_notation_to_index("c8"), def::MOV_CAS);

    assert_eq!(state.hash_key, original_hash);

    state.do_mov(util::map_sqr_notation_to_index("e8"), util::map_sqr_notation_to_index("d7"), def::MOV_REG, 0);
    state.do_mov(util::map_sqr_notation_to_index("b1"), util::map_sqr_notation_to_index("c3"), def::MOV_REG, 0);

    state.do_mov(util::map_sqr_notation_to_index("a8"), util::map_sqr_notation_to_index("d8"), def::MOV_REG, 0);
    state.do_mov(util::map_sqr_notation_to_index("c3"), util::map_sqr_notation_to_index("b1"), def::MOV_REG, 0);

    state.do_mov(util::map_sqr_notation_to_index("d7"), util::map_sqr_notation_to_index("c8"), def::MOV_REG, 0);

    assert_eq!(state.hash_key, hash_after_castle);
}

#[test]
fn test_bitboard_1() {
    let zob_keys = XorshiftPrng::new().create_prn_table(def::BOARD_SIZE, def::PIECE_CODE_RANGE);
    let bitmask = BitMask::new();
    let mut state = State::new("r3kb1r/ppp2ppp/2np1n2/4p3/2B1P3/3P1N2/PPP2PPP/RNBQK2R w KQkq - 0 1", &zob_keys, &bitmask);

    assert_eq!(0b00000000_00000000_00000000_00000000_00010000_00001000_11100111_00000000, state.bitboard.w_pawn);
    assert_eq!(0b00000000_11100111_00001000_00010000_00000000_00000000_00000000_00000000, state.bitboard.b_pawn);

    assert_eq!(0b00000000_00000000_00000000_00000000_00000000_00000000_00000000_10000001, state.bitboard.w_rook);
    assert_eq!(0b10000001_00000000_00000000_00000000_00000000_00000000_00000000_00000000, state.bitboard.b_rook);

    state.do_mov(util::map_sqr_notation_to_index("e1"), util::map_sqr_notation_to_index("g1"), def::MOV_CAS, 0);

    assert_eq!(0b00000000_00000000_00000000_00000000_00010000_00001000_11100111_00000000, state.bitboard.w_pawn);
    assert_eq!(0b00000000_11100111_00001000_00010000_00000000_00000000_00000000_00000000, state.bitboard.b_pawn);

    assert_eq!(0b00000000_00000000_00000000_00000000_00000000_00000000_00000000_00100001, state.bitboard.w_rook);
    assert_eq!(0b10000001_00000000_00000000_00000000_00000000_00000000_00000000_00000000, state.bitboard.b_rook);

    state.do_mov(util::map_sqr_notation_to_index("e8"), util::map_sqr_notation_to_index("c8"), def::MOV_CAS, 0);

    assert_eq!(0b00000000_00000000_00000000_00000000_00010000_00001000_11100111_00000000, state.bitboard.w_pawn);
    assert_eq!(0b00000000_11100111_00001000_00010000_00000000_00000000_00000000_00000000, state.bitboard.b_pawn);

    assert_eq!(0b00000000_00000000_00000000_00000000_00000000_00000000_00000000_00100001, state.bitboard.w_rook);
    assert_eq!(0b10001000_00000000_00000000_00000000_00000000_00000000_00000000_00000000, state.bitboard.b_rook);

    state.do_mov(util::map_sqr_notation_to_index("b2"), util::map_sqr_notation_to_index("b4"), def::MOV_CR_ENP, 0);

    assert_eq!(0b00000000_00000000_00000000_00000000_00010010_00001000_11100101_00000000, state.bitboard.w_pawn);
    assert_eq!(0b00000000_11100111_00001000_00010000_00000000_00000000_00000000_00000000, state.bitboard.b_pawn);

    assert_eq!(0b00000000_00000000_00000000_00000000_00000000_00000000_00000000_00100001, state.bitboard.w_rook);
    assert_eq!(0b10001000_00000000_00000000_00000000_00000000_00000000_00000000_00000000, state.bitboard.b_rook);

    state.do_mov(util::map_sqr_notation_to_index("b7"), util::map_sqr_notation_to_index("b6"), def::MOV_REG, 0);
    state.do_mov(util::map_sqr_notation_to_index("b4"), util::map_sqr_notation_to_index("b5"), def::MOV_REG, 0);
    state.do_mov(util::map_sqr_notation_to_index("a7"), util::map_sqr_notation_to_index("a5"), def::MOV_CR_ENP, 0);
    state.do_mov(util::map_sqr_notation_to_index("b5"), util::map_sqr_notation_to_index("a6"), def::MOV_ENP, 0);

    assert_eq!(0b00000000_00000000_00000001_00000000_00010000_00001000_11100101_00000000, state.bitboard.w_pawn);
    assert_eq!(0b00000000_11100100_00001010_00010000_00000000_00000000_00000000_00000000, state.bitboard.b_pawn);

    assert_eq!(0b00000000_00000000_00000000_00000000_00000000_00000000_00000000_00100001, state.bitboard.w_rook);
    assert_eq!(0b10001000_00000000_00000000_00000000_00000000_00000000_00000000_00000000, state.bitboard.b_rook);
}

#[test]
fn test_quiet_promotion_counts_as_reversible() {
    let zob_keys = XorshiftPrng::new().create_prn_table(def::BOARD_SIZE, def::PIECE_CODE_RANGE);
    let bitmask = BitMask::new();
    let mut state = State::new("8/P6k/8/8/8/8/8/K7 w - - 3 10", &zob_keys, &bitmask);
    assert_eq!(3, state.non_cap_mov_count);
    let a7 = util::map_sqr_notation_to_index("a7");
    let a8 = util::map_sqr_notation_to_index("a8");
    state.do_mov(a7, a8, def::MOV_PROMO, def::WQ);
    assert_eq!(4, state.non_cap_mov_count);
    assert_eq!(def::WQ, state.squares[a8]);
    state.undo_mov(a7, a8, def::MOV_PROMO);
    assert_eq!(3, state.non_cap_mov_count);
}
