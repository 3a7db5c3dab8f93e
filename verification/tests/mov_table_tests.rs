use foxsee::bitmask::BitMask;
use foxsee::def;
use foxsee::mov_table::{gen_reg_mov_list, is_in_check, is_under_attack, is_valid_attacker};
use foxsee::prng::XorshiftPrng;
use foxsee::state::State;
use foxsee::util;

fn keys() -> Vec<Vec<u64>> {
    XorshiftPrng::new().create_prn_table(def::BOARD_SIZE, def::PIECE_CODE_RANGE)
}

fn gen_reg_movs_test_helper(fen: &str, expected_mov_list: Vec<&str>, debug: bool) {
    let zob_keys = keys();
    let bitmask = BitMask::new();
    let state = State::new(fen, &zob_keys, &bitmask);

    let mut mov_list = [0; def::MAX_MOV_COUNT];

    gen_reg_mov_list(&state, &mut mov_list);

    if debug {
        println!("Moves:");
        for mov_index in 0..def::MAX_MOV_COUNT {
            let mov = mov_list[mov_index];
            if mov == 0 {
                break
            }

            println!("{}", util::format_mov(mov));
        }
    }

    let mut mov_counter = 0;

    for mov_index in 0..def::MAX_MOV_COUNT {
        let mov = mov_list[mov_index];
        if mov == 0 {
            break
        }

        mov_counter += 1;

        let mov_str = util::format_mov(mov);
        if !expected_mov_list.contains(&&*mov_str) {
            assert!(false, "{} not matched", mov_str);
        }
    }

    assert_eq!(mov_counter, expected_mov_list.len(), "non-capture count do not match");
}

#[test]
fn mov_table_test_gen_movs_1() {
    gen_reg_movs_test_helper(
        "rnbqkbnr/ppp1pppp/8/3p4/4P3/8/PPPP1PPP/RNBQKBNR w KQkq - 0 1",
        vec![
            "e4d5",
            "e4e5", "a2a3", "a2a4", "b2b3", "b2b4", "c2c3", "c2c4", "d2d3", "d2d4", "f2f3", "f2f4", "g2g3", "g2g4", "h2h3", "h2h4",
            "b1a3", "b1c3", "g1e2", "g1f3", "g1h3", "f1e2", "f1d3", "f1c4", "f1b5", "f1a6", "d1e2", "d1f3", "d1g4", "d1h5", "e1e2",
            ],
        false,
    );
}

#[test]
fn mov_table_test_gen_movs_2() {
    gen_reg_movs_test_helper(
        "2k2r2/pp2br2/1np1p2q/2NpP2p/3P2p1/2PN4/PP2Q1PP/3R1R1K b - - 8 27",
        vec![
            "e7c5", "f7f1",
            "a7a6", "a7a5", "b6a4", "b6a8", "b6c4", "b6d7", "c8b8", "c8c7", "c8d7", "c8d8", "e7d8", "e7d6", "e7f6", "e7g5", "e7h4",
            "f8d8", "f8e8", "f8g8", "f8h8", "f7f6", "f7f5", "f7f4", "f7f3", "f7f2", "f7g7", "f7h7",
            "h6g6", "h6f6", "h6g7", "h6h7", "h6h8", "h6g5", "h6f4", "h6e3", "h6d2", "h6c1",
            "g4g3", "h5h4",
            ],
        false,
    );
}

#[test]
fn mov_table_test_gen_movs_3() {
    gen_reg_movs_test_helper(
        "r5rk/2p1Nppp/3p3P/pp2p1P1/4P3/2qnPQK1/8/R6R w - - 1 0",
        vec![
            "a1a5", "e7g8", "h6g7", "f3f7",
            "g5g6",
            "a1a2", "a1a3", "a1a4", "a1b1", "a1c1", "a1d1", "a1e1", "a1f1", "a1g1",
            "h1g1", "h1f1", "h1e1", "h1d1", "h1c1", "h1b1", "h1h2", "h1h3", "h1h4", "h1h5",
            "e7c8", "e7c6", "e7d5", "e7f5", "e7g6",
            "f3e2", "f3d1", "f3g4", "f3h5", "f3g2", "f3f2", "f3f1", "f3f4", "f3f5", "f3f6",
            "g3g2", "g3f2", "g3g4", "g3h2", "g3h3", "g3h4", "g3f4"
            ],
        false,
    );
}

#[test]
fn mov_table_test_gen_movs_4() {
    gen_reg_movs_test_helper(
        "r1bqk1nr/pPpp1ppp/2n5/2b1p3/2B1P3/2N2N2/P1PP1PPP/R1BQK2R w KQkq - 0 1",
        vec![
            "b7a8q", "b7c8q", "b7a8r", "b7c8r", "b7a8b", "b7c8b", "b7a8n", "b7c8n", "f3e5", "c4f7",
            "a2a3", "a2a4", "d2d3", "d2d4", "g2g3", "g2g4", "h2h3", "h2h4",
            "b7b8q", "b7b8r", "b7b8b", "b7b8n",
            "a1b1",
            "c1b2", "c1a3",
            "c3b1", "c3a4", "c3b5", "c3d5", "c3e2",
            "c4b3", "c4b5", "c4a6", "c4d3", "c4e2", "c4f1", "c4d5", "c4e6",
            "f3d4", "f3g5", "f3h4", "f3g1",
            "d1e2",
            "e1f1", "e1e2",
            "h1g1", "h1f1",
            "e1g1"
            ],
        false,
    );
}

#[test]
fn mov_table_test_gen_movs_5() {
    gen_reg_movs_test_helper(
        "2k2r2/pp2br2/1np1p3/2NpP2p/3P2p1/2PN4/PP2Q1PP/2qR1R1K b - - 8 27",
        vec![
            "e7c5", "f7f1", "c1d1", "c1b2", "c1c3",
            "a7a6", "a7a5", "b6a4", "b6a8", "b6c4", "b6d7", "c8b8", "c8c7", "c8d7", "c8d8", "e7d8", "e7d6", "e7f6", "e7g5", "e7h4",
            "f8d8", "f8e8", "f8g8", "f8h8", "f7f6", "f7f5", "f7f4", "f7f3", "f7f2", "f7g7", "f7h7",
            "c1a1", "c1b1", "c1c2", "c1d2", "c1e3", "c1f4", "c1g5", "c1h6",
            "g4g3", "h5h4",
            ],
        false,
    );
}

#[test]
fn mov_table_test_gen_movs_6() {
    gen_reg_movs_test_helper(
        "4Q1k1/pp3ppp/3B4/q2p4/5P1P/P3PbPK/1P1r4/2R5 w - - 3 5",
        vec![
            "e8g8", "e8f7",
            "e8f8", "e8d8", "e8c8", "e8b8", "e8a8", "e8e7", "e8e6", "e8e5", "e8e4", "e8d7", "e8c6", "e8b5", "e8a4",
            "d6c7", "d6b8", "d6c5", "d6b4", "d6e5", "d6e7", "d6f8",
            "a3a4", "b2b3", "b2b4",
            "e3e4", "f4f5", "g3g4", "h4h5",
            "c1b1", "c1a1", "c1d1", "c1e1", "c1f1", "c1g1", "c1h1", "c1c2", "c1c3", "c1c4", "c1c5", "c1c6", "c1c7", "c1c8",
            "h3g2", "h3h2", "h3g4",
            ],
        false,
    );
}

#[test]
fn test_attack_check_1() {
    let zob_keys = keys();
    let bitmask = BitMask::new();
    let state = State::new("3rr3/2pq2pk/p2p1pnp/8/2QBPP2/1P6/P5PP/4RRK1 b - - 0 1", &zob_keys, &bitmask);

    assert!(is_under_attack(&state, util::map_sqr_notation_to_index("f6"), def::PLAYER_B));
    assert!(is_under_attack(&state, util::map_sqr_notation_to_index("c7"), def::PLAYER_B));
    assert!(is_under_attack(&state, util::map_sqr_notation_to_index("a6"), def::PLAYER_B));
    assert!(is_under_attack(&state, util::map_sqr_notation_to_index("e4"), def::PLAYER_W));
    assert!(!is_under_attack(&state, util::map_sqr_notation_to_index("d4"), def::PLAYER_W));
}

#[test]
fn test_attack_check_2() {
    let zob_keys = keys();
    let bitmask = BitMask::new();
    let state = State::new("8/8/1k6/8/1R6/3K4/8/8 w - - 0 1", &zob_keys, &bitmask);

    assert!(is_under_attack(&state, util::map_sqr_notation_to_index("b6"), def::PLAYER_B));
    assert!(is_under_attack(&state, util::map_sqr_notation_to_index("c7"), def::PLAYER_W));
}

#[test]
fn mov_table_test_king_check_1() {
    let zob_keys = keys();
    let bitmask = BitMask::new();
    let state = State::new("3rr1k1/2pq2p1/p2p1pnp/8/2BBPP2/1PQ5/P5PP/4RRK1 b - - 0 1", &zob_keys, &bitmask);

    assert!(is_in_check(&state, def::PLAYER_B));
}

#[test]
fn mov_table_test_king_check_2() {
    let zob_keys = keys();
    let bitmask = BitMask::new();
    let state = State::new("3rr1k1/2pq2p1/p2pNpnp/8/2QBPP2/1P1B4/P5PP/4RRK1 b - - 0 1", &zob_keys, &bitmask);

    assert!(!is_in_check(&state, def::PLAYER_B));
}

#[test]
fn mov_table_test_king_check_3() {
    let zob_keys = keys();
    let bitmask = BitMask::new();
    let state = State::new("r2qnkn1/p2b2br/1p1p1pp1/2pPpp2/1PP1P2K/PRNBB3/3QNPPP/5R2 w - - 0 1", &zob_keys, &bitmask);

    assert!(is_in_check(&state, def::PLAYER_W));
    assert!(!is_in_check(&state, def::PLAYER_B));
}

#[test]
fn mov_table_test_king_check_4() {
    let zob_keys = keys();
    let bitmask = BitMask::new();
    let state = State::new("r2q1kn1/p2b1rb1/1p1p1pp1/2pPpn2/1PP1P3/PRNBB1K1/3QNPPP/5R2 w - - 0 1", &zob_keys, &bitmask);

    assert!(is_in_check(&state, def::PLAYER_W));
    assert!(!is_in_check(&state, def::PLAYER_B));
}

#[test]
fn mov_table_test_king_check_5() {
    let zob_keys = keys();
    let bitmask = BitMask::new();
    let state = State::new("r2q1k2/p2bPrbR/1p1p1ppn/2pPpn2/1PP1P3/P1NBB3/3QNPPP/5RK1 b - - 0 1", &zob_keys, &bitmask);

    assert!(is_in_check(&state, def::PLAYER_B));
    assert!(!is_in_check(&state, def::PLAYER_W));
}

#[test]
fn test_king_check_6() {
    let zob_keys = keys();
    let bitmask = BitMask::new();
    let state = State::new("r1bqkbnr/pppppppp/3n1n2/8/8/8/PPPPPPPP/RNBQKBNR w KQkq - 0 1", &zob_keys, &bitmask);

    assert!(!is_in_check(&state, def::PLAYER_W));
    assert!(!is_in_check(&state, def::PLAYER_B));
}

#[test]
fn test_king_check_7() {
    let zob_keys = keys();
    let bitmask = BitMask::new();
    let state = State::new("8/1B6/8/3k3p/8/6K1/8/4b3 w - - 0 1", &zob_keys, &bitmask);

    assert!(is_in_check(&state, def::PLAYER_W));
    assert!(is_in_check(&state, def::PLAYER_B));
}

#[test]
fn test_is_valid_attacker() {
    let zob_keys = keys();
    let bitmask = BitMask::new();
    let mut state = State::new("3r2k1/2pq2p1/p3npnp/8/2BBPPb1/1P3N2/P5PP/r1QKRR2 b - - 0 1", &zob_keys, &bitmask);

    assert!(!is_valid_attacker(&mut state, util::map_sqr_notation_to_index("e6"), util::map_sqr_notation_to_index("d4")));
    assert!(is_valid_attacker(&mut state, util::map_sqr_notation_to_index("d7"), util::map_sqr_notation_to_index("d4")));
    assert!(is_valid_attacker(&mut state, util::map_sqr_notation_to_index("g4"), util::map_sqr_notation_to_index("f3")));
    assert!(is_valid_attacker(&mut state, util::map_sqr_notation_to_index("g6"), util::map_sqr_notation_to_index("f4")));
    assert!(is_valid_attacker(&mut state, util::map_sqr_notation_to_index("a1"), util::map_sqr_notation_to_index("a2")));

    state.player = def::get_opposite_player(state.player);
    assert!(!is_valid_attacker(&mut state, util::map_sqr_notation_to_index("f3"), util::map_sqr_notation_to_index("g5")));
    assert!(!is_valid_attacker(&mut state, util::map_sqr_notation_to_index("d4"), util::map_sqr_notation_to_index("f6")));
    assert!(!is_valid_attacker(&mut state, util::map_sqr_notation_to_index("c1"), util::map_sqr_notation_to_index("c2")));
    assert!(!is_valid_attacker(&mut state, util::map_sqr_notation_to_index("c1"), util::map_sqr_notation_to_index("d2")));
    assert!(is_valid_attacker(&mut state, util::map_sqr_notation_to_index("c1"), util::map_sqr_notation_to_index("a1")));
    assert!(is_valid_attacker(&mut state, util::map_sqr_notation_to_index("c1"), util::map_sqr_notation_to_index("b1")));
    assert!(is_valid_attacker(&mut state, util::map_sqr_notation_to_index("c4"), util::map_sqr_notation_to_index("e6")));
    assert!(is_valid_attacker(&mut state, util::map_sqr_notation_to_index("e1"), util::map_sqr_notation_to_index("e3")));
    assert!(is_valid_attacker(&mut state, util::map_sqr_notation_to_index("f1"), util::map_sqr_notation_to_index("f2")));
}

#[test]
fn test_gen_captures_and_promos() {
    let zob_keys = keys();
    let bitmask = BitMask::new();
    let state = State::new("r1bqk1nr/pPpp1ppp/2n5/2b1p3/2B1P3/2N2N2/P1PP1PPP/R1BQK2R w KQkq - 0 1", &zob_keys, &bitmask);

    let mut cap_list = [0; def::MAX_CAP_COUNT];
    foxsee::mov_table::gen_capture_and_promo_list(&state, &mut cap_list);

    let mut found = Vec::new();
    for mov in cap_list.iter() {
        if *mov == 0 {
            break;
        }
        found.push(util::format_mov(*mov));
    }
    let mut expected = vec!["b7a8q", "b7a8r", "b7a8b", "b7a8n", "b7b8q", "b7b8r", "b7b8b", "b7b8n",
        "b7c8q", "b7c8r", "b7c8b", "b7c8n", "f3e5", "c4f7"];
    expected.sort();
    found.sort();
    assert_eq!(expected, found);
}

#[test]
fn test_smallest_attacker() {
    let zob_keys = keys();
    let bitmask = BitMask::new();
    let mut state = State::new("3r2k1/2pq2p1/p3npnp/8/2BBPPb1/1P3N2/P5PP/r1QKRR2 b - - 0 1", &zob_keys, &bitmask);
    let hash = state.hash_key;

    // on d4 the knight on e6 is pinned; the queen on d7 is the cheapest that may capture
    let (piece, tp, promo, from) = foxsee::mov_table::get_smallest_attacker_index(&mut state, util::map_sqr_notation_to_index("d4"));
    assert_eq!((def::BQ, def::MOV_REG, 0), (piece, tp, promo));
    assert_eq!(util::map_sqr_notation_to_index("d7"), from);
    assert_eq!(hash, state.hash_key);

    // f3 is taken by the bishop on g4
    let (piece, _, _, from) = foxsee::mov_table::get_smallest_attacker_index(&mut state, util::map_sqr_notation_to_index("f3"));
    assert_eq!(def::BB, piece);
    assert_eq!(util::map_sqr_notation_to_index("g4"), from);

    // the rook on a1 looks through the white pieces on the first rank onto h1
    assert_eq!((def::BR, def::MOV_REG, 0, 0), foxsee::mov_table::get_smallest_attacker_index(&mut state, util::map_sqr_notation_to_index("h1")));
}

#[test]
fn test_capture_list_is_tactical_part_of_move_list() {
    let zob_keys = foxsee::prng::XorshiftPrng::new().create_prn_table(def::BOARD_SIZE, def::PIECE_CODE_RANGE);
    let bitmask = foxsee::bitmask::BitMask::new();
    let fens = [
        foxsee::uci::FEN_START_POS,
        "r3k2r/p1ppqpb1/bn2pnp1/3PN3/1p2P3/2N2Q1p/PPPBBPPP/R3K2R w KQkq - 0 1",
        "rnbq1k1r/pp1Pbppp/2p5/8/2B5/8/PPP1NnPP/RNBQK2R w KQ - 1 8",
        "8/2p5/3p4/KP5r/1R3p1k/8/4P1P1/8 w - - 0 1",
        "r2q1rk1/pP1p2pp/Q4n2/bbp1p3/Np6/1B3NBn/pPPP1PPP/R3K2R b KQ - 0 1",
        "4k3/8/8/3pP3/8/8/8/4K3 w - d6 0 1",
    ];
    for fen in fens.iter() {
        let state = foxsee::state::State::new(fen, &zob_keys, &bitmask);
        let mut all = [0u32; def::MAX_MOV_COUNT];
        let mut caps = [0u32; def::MAX_CAP_COUNT];
        foxsee::mov_table::gen_reg_mov_list(&state, &mut all);
        foxsee::mov_table::gen_capture_and_promo_list(&state, &mut caps);
        let tactical: Vec<u32> = all.iter().copied().take_while(|m| *m != 0).filter(|m| {
            let (_from, to, tp, _promo) = util::decode_u32_mov(*m);
            state.squares[to] != 0 || tp == def::MOV_ENP || tp == def::MOV_PROMO
        }).collect();
        let listed: Vec<u32> = caps.iter().copied().take_while(|m| *m != 0).collect();
        assert_eq!(tactical, listed, "{}", fen);
    }
}
