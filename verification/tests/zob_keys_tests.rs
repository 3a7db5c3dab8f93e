use foxsee::bitmask::BitMask;
use foxsee::def;
use foxsee::hashtable::HASH_TYPE_EXACT;
use foxsee::prng::XorshiftPrng;
use foxsee::search::{get_hash_key, SearchEngine};
use foxsee::state::State;
use foxsee::zob_keys;

#[test]
fn test_zob_keys_init_sizes() {
    let keys = zob_keys::init();
    assert_eq!(def::BOARD_SIZE, keys.board_zob_keys.len());
    for row in keys.board_zob_keys.iter() {
        assert_eq!(def::PIECE_CODE_RANGE, row.len());
    }
    assert_eq!(def::BOARD_SIZE, keys.enp_sqr_zob_keys.len());
    assert_eq!(zob_keys::CASTLING_RIGHTS_COMB_SIZE, keys.castling_rights_zob_keys.len());
}

#[test]
fn test_zob_keys_board_table_matches_generator() {
    let keys = zob_keys::init();
    let table = XorshiftPrng::new().create_prn_table(def::BOARD_SIZE, def::PIECE_CODE_RANGE);
    assert_eq!(table, keys.board_zob_keys);
    assert_eq!(table[12][def::WQ as usize], keys.get_board_zob_key(12, def::WQ));
}

#[test]
fn test_get_hash_key_side_to_move() {
    let keys = zob_keys::init();
    let bitmask = BitMask::new();
    let w = State::new("4k3/8/8/8/8/8/8/4K3 w - - 0 1", &keys.board_zob_keys, &bitmask);
    let b = State::new("4k3/8/8/8/8/8/8/4K3 b - - 0 1", &keys.board_zob_keys, &bitmask);
    assert_eq!(w.hash_key, b.hash_key);
    let kw = get_hash_key(&w, &keys);
    let kb = get_hash_key(&b, &keys);
    assert_eq!(kw ^ keys.get_b_player_zob_key(), kb);
    assert_eq!(
        w.hash_key ^ keys.get_enp_sqr_zob_key(0) ^ keys.get_cas_rights_zob_key(0),
        kw
    );
}

#[test]
fn test_set_hash_then_get_hash() {
    let keys = zob_keys::init();
    let bitmask = BitMask::new();
    let state = State::new("4k3/8/8/8/8/8/8/4K3 w - - 0 1", &keys.board_zob_keys, &bitmask);
    let mut engine = SearchEngine::new(1024);
    assert!(engine.get_hash(&state, &keys).is_none());

    engine.set_hash(&state, &keys, 5, 3, HASH_TYPE_EXACT, 42, 17, 1234);
    let found = engine.get_hash(&state, &keys).unwrap();
    assert_eq!(HASH_TYPE_EXACT, found.flag);
    assert_eq!(5, found.depth);
    assert_eq!(42, found.score);
    assert_eq!(17, found.eval);
    assert_eq!(1234, found.mov);

    // a mate score moves one further from zero per ply
    engine.set_hash(&state, &keys, 6, 3, HASH_TYPE_EXACT, 19990, 0, 0);
    assert_eq!(19993, engine.get_hash(&state, &keys).unwrap().score);
    engine.set_hash(&state, &keys, 7, 4, HASH_TYPE_EXACT, -19990, 0, 0);
    assert_eq!(-19994, engine.get_hash(&state, &keys).unwrap().score);
}

#[test]
fn test_retrieve_pv_follows_hash_moves() {
    let keys = zob_keys::init();
    let bitmask = BitMask::new();
    let mut state = State::new(foxsee::uci::FEN_START_POS, &keys.board_zob_keys, &bitmask);
    let mut engine = SearchEngine::new(65536);

    let m1 = foxsee::util::encode_u32_mov(12, 28, def::MOV_CR_ENP, 0);
    let m2 = foxsee::util::encode_u32_mov(52, 36, def::MOV_CR_ENP, 0);
    engine.set_hash(&state, &keys, 2, 0, HASH_TYPE_EXACT, 0, 0, m1);
    state.do_mov(12, 28, def::MOV_CR_ENP, 0);
    engine.set_hash(&state, &keys, 1, 1, HASH_TYPE_EXACT, 0, 0, m2);
    state.undo_mov(12, 28, def::MOV_CR_ENP);

    let squares_before = state.squares;
    let mut pv = [7u32; 20];
    engine.retrieve_pv(&mut state, &keys, &mut pv, 0);
    assert_eq!(m1, pv[0]);
    assert_eq!(m2, pv[1]);
    // nothing is stored for the position after both moves, so the rest is untouched
    assert_eq!(7, pv[2]);
    assert_eq!(squares_before, state.squares);
    assert_eq!("e2e4 e7e5 ", foxsee::util::format_pv(&pv[0..3].iter().map(|m| if *m == 7 { 0 } else { *m }).collect::<Vec<u32>>()));
}

#[test]
fn test_retrieve_pv_stops_at_illegal_move() {
    let keys = zob_keys::init();
    let bitmask = BitMask::new();
    // the white king on e1 stepping to e2 walks into the rook on e8
    let mut state = State::new("4r1k1/8/8/8/8/8/8/4K3 w - - 0 1", &keys.board_zob_keys, &bitmask);
    let mut engine = SearchEngine::new(1024);
    let mov = foxsee::util::encode_u32_mov(4, 12, def::MOV_REG, 0);
    engine.set_hash(&state, &keys, 1, 0, HASH_TYPE_EXACT, 0, 0, mov);

    let mut pv = [0u32; 16];
    engine.retrieve_pv(&mut state, &keys, &mut pv, 0);
    assert_eq!(0, pv[0]);
}

#[test]
fn test_zob_keys_follow_the_board_table() {
    // the key for black to move and the en-passant and castling keys are the draws that
    // follow the board table
    let keys = zob_keys::init();
    let mut prng = XorshiftPrng::new();
    let table = prng.create_prn_table(def::BOARD_SIZE, def::PIECE_CODE_RANGE);
    assert_eq!(table, keys.board_zob_keys);
    assert_eq!(prng.gen_rand(), keys.b_player_zob_key);
    for i in 0..def::BOARD_SIZE {
        assert_eq!(prng.gen_rand(), keys.enp_sqr_zob_keys[i]);
    }
    for i in 0..zob_keys::CASTLING_RIGHTS_COMB_SIZE {
        assert_eq!(prng.gen_rand(), keys.castling_rights_zob_keys[i]);
    }
}

#[test]
fn test_prn_table_entries_distinct() {
    let table = XorshiftPrng::new().create_prn_table(def::BOARD_SIZE, def::PIECE_CODE_RANGE);
    for i in 0..def::BOARD_SIZE {
        for j in 0..def::PIECE_CODE_RANGE {
            for ii in 0..i {
                for jj in 0..j {
                    assert_ne!(table[i][j], table[ii][jj]);
                }
            }
        }
    }
}
