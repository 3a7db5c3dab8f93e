use foxsee::def;
use foxsee::util;
use foxsee::util::{
    decode_u32_mov, encode_u32_mov, kindergarten_transform_file, kindergarten_transform_rank_diag,
    map_sqr_notation_to_index, gen_all_perms_1st_rank, gen_all_perms_1st_file, gen_all_perms_diag_up,
    gen_all_perms_diag_down,
};

#[test]
fn test_rank_shift() {
    let original_board: u64 = 0b00000000_10110111_00000000_00000000_00000000_00000000_00000000_00000000;
    let shifted_board = original_board >> 6 * 8;
    assert_eq!(0b00000000_00000000_00000000_00000000_00000000_00000000_00000000_10110111, shifted_board);
}

#[test]
fn test_file_shift() {
    let original_board: u64 = 0b00000000_00000000_00000000_00000000_00000000_00000001_00000001_00000001;
    let shifted_board = original_board << 1;
    assert_eq!(0b00000000_00000000_00000000_00000000_00000000_00000010_00000010_00000010, shifted_board);
}

#[test]
fn test_kindergarten_ranks() {
    let original_board: u64 = 0b00000000_00000000_00000000_10000011_00000000_00000000_00000000_00000000;
    let kindergarten_board = kindergarten_transform_rank_diag(original_board);
    assert_eq!(0b00000000_00000000_00000000_00000000_00000000_00000000_00000000_10000011, kindergarten_board);
}

#[test]
fn test_kindergarten_up_diagnol() {
    let original_board: u64 = 0b10000000_01000000_00100000_00010000_00001000_00000100_00000010_00000001;
    let kindergarten_board = kindergarten_transform_rank_diag(original_board);
    assert_eq!(0b00000000_00000000_00000000_00000000_00000000_00000000_00000000_11111111, kindergarten_board);
}

#[test]
fn test_kindergarten_down_diagnol() {
    let original_board: u64 = 0b00000001_00000010_00000100_00001000_00010000_00100000_01000000_10000000;
    let kindergarten_board = kindergarten_transform_rank_diag(original_board);
    assert_eq!(0b00000000_00000000_00000000_00000000_00000000_00000000_00000000_11111111, kindergarten_board);
}

#[test]
fn test_kindergarten_down_diagnol1() {
    let original_board: u64 = 0b00000010_00000100_00001000_00010000_00100000_01000000_10000000_00000000;
    let kindergarten_board = kindergarten_transform_rank_diag(original_board);
    assert_eq!(0b00000000_00000000_00000000_00000000_00000000_00000000_00000000_11111110, kindergarten_board);
}

#[test]
fn test_kindergarten_file() {
    let original_board: u64 = 0b00000010_00000000_00000000_00000000_00000000_00000000_00000010_00000010;
    let kindergarten_board = kindergarten_transform_file(original_board, util::map_sqr_notation_to_index("b2"));
    assert_eq!(0b00000000_00000000_00000000_00000000_00000000_00000000_00000000_11000001, kindergarten_board);
}

#[test]
fn test_map_sqr_notation_to_index() {
    assert_eq!(0, map_sqr_notation_to_index("a1"));
    assert_eq!(8, map_sqr_notation_to_index("a2"));
    assert_eq!(25, map_sqr_notation_to_index("b4"));
    assert_eq!(63, map_sqr_notation_to_index("h8"));
    assert_eq!(56, map_sqr_notation_to_index("a8"));
}

#[test]
fn test_encode_decode_mov_1() {
    let encoded = encode_u32_mov(util::map_sqr_notation_to_index("e6"), util::map_sqr_notation_to_index("a8"), def::MOV_REG, 0);
    let (from, to, tp, promo) = util::decode_u32_mov(encoded);
    assert_eq!(from, util::map_sqr_notation_to_index("e6"));
    assert_eq!(to, util::map_sqr_notation_to_index("a8"));
    assert_eq!(def::MOV_REG, tp);
    assert_eq!(0, promo);
}

#[test]
fn test_encode_decode_mov_2() {
    let encoded = encode_u32_mov(util::map_sqr_notation_to_index("c8"), util::map_sqr_notation_to_index("h3"), def::MOV_ENP, 6);
    let (from, to, tp, promo) = util::decode_u32_mov(encoded);
    assert_eq!(from, util::map_sqr_notation_to_index("c8"));
    assert_eq!(to, util::map_sqr_notation_to_index("h3"));
    assert_eq!(def::MOV_ENP, tp);
    assert_eq!(6, promo);
}

#[test]
fn test_gen_perms() {
    let rank_perms = gen_all_perms_1st_rank();
    assert_eq!(256, rank_perms.len());

    let file_perms = gen_all_perms_1st_file();
    assert_eq!(256, file_perms.len());

    let diag_up_perms = gen_all_perms_diag_up();
    assert_eq!(256, diag_up_perms.len());

    let diag_down_perms = gen_all_perms_diag_down();
    assert_eq!(256, diag_down_perms.len());
}


#[test]
fn test_gen_perms_order() {
    let rank_perms = gen_all_perms_1st_rank();
    assert_eq!(0, rank_perms[0]);
    assert_eq!(0b1000_0000, rank_perms[1]);
    assert_eq!(0b0000_0001, rank_perms[128]);
    assert_eq!(0xff, rank_perms[255]);

    let file_perms = gen_all_perms_1st_file();
    assert_eq!(1u64 << 56, file_perms[1]);
    assert_eq!(0x0101_0101_0101_0101, file_perms[255]);

    let diag_up_perms = gen_all_perms_diag_up();
    assert_eq!(1u64 << 63, diag_up_perms[1]);
    assert_eq!(0x8040_2010_0804_0201, diag_up_perms[255]);

    let diag_down_perms = gen_all_perms_diag_down();
    assert_eq!(1u64 << 7, diag_down_perms[128]);
    assert_eq!(1u64 << 56, diag_down_perms[1]);
    assert_eq!(0x0102_0408_1020_4080, diag_down_perms[255]);
}

#[test]
fn test_sqr_notation_round_trip() {
    assert_eq!("a1", util::map_index_to_sqr_notation(0));
    assert_eq!("h8", util::map_index_to_sqr_notation(63));
    assert_eq!("e4", util::map_index_to_sqr_notation(28));
    for index in 0..64usize {
        let name = util::map_index_to_sqr_notation(index);
        assert_eq!(index, map_sqr_notation_to_index(&name));
    }
}
