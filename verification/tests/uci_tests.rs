use foxsee::bitmask::BitMask;
use foxsee::def;
use foxsee::prng::XorshiftPrng;
use foxsee::state::State;
use foxsee::uci::parse_mov_str;
use foxsee::util;

#[test]
fn test_parse_mov_str() {
    let raw_mov = parse_mov_str("e1g1");
    assert_eq!(util::map_sqr_notation_to_index("e1"), raw_mov.from);
    assert_eq!(util::map_sqr_notation_to_index("g1"), raw_mov.to);
    assert_eq!("".to_owned(), raw_mov.promo);

    let raw_mov = parse_mov_str("a7b8q");
    assert_eq!(util::map_sqr_notation_to_index("a7"), raw_mov.from);
    assert_eq!(util::map_sqr_notation_to_index("b8"), raw_mov.to);
    assert_eq!("q".to_owned(), raw_mov.promo);
}

#[test]
fn test_parse_mov_str_fields() {
    let raw_mov = parse_mov_str("h7h8n");
    assert_eq!(55, raw_mov.from);
    assert_eq!(63, raw_mov.to);
    assert_eq!("n", raw_mov.promo);
    assert_eq!("h7h8n", raw_mov.origin_mov_str);
}

use foxsee::uci::{process_uci_cmd, rawmov_kind, UciCommand, FEN_START_POS};

#[test]
fn test_uci_simple_commands() {
    assert!(matches!(process_uci_cmd("uci"), UciCommand::Noop));
    assert!(matches!(process_uci_cmd("isready"), UciCommand::Noop));
    assert!(matches!(process_uci_cmd("printdebug"), UciCommand::PrintDebugInfo));
    assert!(matches!(process_uci_cmd("ucinewgame"), UciCommand::Reset));
    assert!(matches!(process_uci_cmd("perft 3"), UciCommand::Perft(3)));
    assert!(matches!(process_uci_cmd("go depth 7"), UciCommand::StartSearchToDepth(7)));
    assert!(matches!(process_uci_cmd("go movetime 500"), UciCommand::StartSearchWithTime(500)));
    assert!(matches!(process_uci_cmd("go infinite"), UciCommand::StartSearchInfinite));
    assert!(matches!(process_uci_cmd("go ponder"), UciCommand::Noop));
    assert!(matches!(process_uci_cmd("nonsense"), UciCommand::Noop));
}

#[test]
fn test_uci_hash_option() {
    match process_uci_cmd("setoption name Hash value 64") {
        UciCommand::SetHashSize(n) => assert_eq!(4 * (1usize << 19), n),
        _ => panic!("expected a hash size"),
    }
    assert!(matches!(process_uci_cmd("setoption name Hash value 48"), UciCommand::IgnoredOption));
    assert!(matches!(process_uci_cmd("setoption name Hash value 8"), UciCommand::IgnoredOption));
    assert!(matches!(process_uci_cmd("setoption name Threads value 2"), UciCommand::IgnoredOption));
}

#[test]
fn test_uci_time_control() {
    match process_uci_cmd("go wtime 1000 btime 2000 winc 10 binc 20") {
        UciCommand::StartSearchWithComplextTimeControl((w, b)) => {
            assert_eq!((1000, 50, 10), (w.all_time_millis, w.moves_to_go, w.increment_millis));
            assert_eq!((2000, 50, 20), (b.all_time_millis, b.moves_to_go, b.increment_millis));
        },
        _ => panic!("expected a time control"),
    }
    match process_uci_cmd("go wtime 1000 btime 2000") {
        UciCommand::StartSearchWithComplextTimeControl((w, b)) => {
            assert_eq!((1000, 60, 0), (w.all_time_millis, w.moves_to_go, w.increment_millis));
            assert_eq!((2000, 60, 0), (b.all_time_millis, b.moves_to_go, b.increment_millis));
        },
        _ => panic!("expected a time control"),
    }
    match process_uci_cmd("go wtime 1000 btime 2000 movestogo 7") {
        UciCommand::StartSearchWithComplextTimeControl((w, _)) => assert_eq!(7, w.moves_to_go),
        _ => panic!("expected a time control"),
    }
    match process_uci_cmd("go movestogo 5 wtime 100 btime 200 winc 1 binc 2") {
        UciCommand::StartSearchWithComplextTimeControl((w, b)) => {
            assert_eq!((100, 5, 1), (w.all_time_millis, w.moves_to_go, w.increment_millis));
            assert_eq!((200, 5, 2), (b.all_time_millis, b.moves_to_go, b.increment_millis));
        },
        _ => panic!("expected a time control"),
    }
}

#[test]
fn test_uci_position() {
    match process_uci_cmd("position startpos moves e2e4 e7e5 g1f3") {
        UciCommand::Position(fen, movs) => {
            assert_eq!(FEN_START_POS, fen);
            assert_eq!(3, movs.len());
            assert_eq!((12, 28), (movs[0].from, movs[0].to));
            assert_eq!("g1f3", movs[2].origin_mov_str);
        },
        _ => panic!("expected a position"),
    }
    match process_uci_cmd("position fen 8/P1k5/K7/8/8/8/8/8 w - - 0 1") {
        UciCommand::Position(fen, movs) => {
            assert_eq!("8/P1k5/K7/8/8/8/8/8 w - - 0 1", fen);
            assert!(movs.is_empty());
        },
        _ => panic!("expected a position"),
    }
    match process_uci_cmd("position startpos") {
        UciCommand::Position(fen, movs) => {
            assert_eq!(FEN_START_POS, fen);
            assert!(movs.is_empty());
        },
        _ => panic!("expected a position"),
    }
}

#[test]
fn test_rawmov_kind() {
    let zob_keys = XorshiftPrng::new().create_prn_table(def::BOARD_SIZE, def::PIECE_CODE_RANGE);
    let bitmask = BitMask::new();
    let state = State::new("r3k2r/pPppnppp/8/4p3/2B5/8/PPPP1PPP/R3K2R w KQkq - 0 1", &zob_keys, &bitmask);

    assert_eq!((def::MOV_CAS, 0), rawmov_kind(&state, &parse_mov_str("e1g1")));
    assert_eq!((def::MOV_PROMO, def::WQ), rawmov_kind(&state, &parse_mov_str("b7a8q")));
    assert_eq!((def::MOV_PROMO, def::WN), rawmov_kind(&state, &parse_mov_str("b7b8n")));
    assert_eq!((def::MOV_CR_ENP, 0), rawmov_kind(&state, &parse_mov_str("a2a4")));
    assert_eq!((def::MOV_REG, 0), rawmov_kind(&state, &parse_mov_str("a2a3")));
    assert_eq!((def::MOV_REG, 0), rawmov_kind(&state, &parse_mov_str("e1f1")));
}

#[test]
fn test_format_then_parse_mov() {
    let mov = foxsee::util::encode_u32_mov(52, 60, foxsee::def::MOV_PROMO, foxsee::def::WQ);
    let text = foxsee::util::format_mov(mov);
    assert_eq!("e7e8q", text);
    let raw = parse_mov_str(&text);
    assert_eq!(52, raw.from);
    assert_eq!(60, raw.to);
    assert_eq!("q", raw.promo);

    let mov = foxsee::util::encode_u32_mov(12, 28, foxsee::def::MOV_CR_ENP, 0);
    let raw = parse_mov_str(&foxsee::util::format_mov(mov));
    assert_eq!(12, raw.from);
    assert_eq!(28, raw.to);
    assert_eq!("", raw.promo);
}
