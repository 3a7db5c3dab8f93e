use foxsee::bitmask::BitMask;
use foxsee::util;

#[test]
fn test_horizontal_masks() {
    let bitmask = BitMask::new();
    let index = util::map_sqr_notation_to_index("e4");
    let rank_mask = bitmask.rank_masks[index];
    let occupy_mask = 0b00000010_00000001_00000000_00000000_01001100_00000000_00000000_00000001 & rank_mask;
    
    assert_eq!(0b00000000_00000000_00000000_00000000_01101000_00000000_00000000_00000000,
        bitmask.horizontal_attack_masks[index][util::kindergarten_transform_rank_diag(occupy_mask) as usize]);
}

#[test]
fn test_diagup_masks() {
    let bitmask = BitMask::new();
    let index = util::map_sqr_notation_to_index("d4");
    let diag_up_mask = bitmask.diag_up_masks[index];
    let occupy_mask = 0b00000010_00000001_00000000_00010000_00001000_00000000_00000010_00000010 & diag_up_mask;

    assert_eq!(0b00000000_00000000_00000000_00010000_00000000_00000100_00000010_00000000,
        bitmask.diag_up_attack_masks[index][util::kindergarten_transform_rank_diag(occupy_mask) as usize]);
}

#[test]
fn test_diagup_masks1() {
    let bitmask = BitMask::new();
    let index = util::map_sqr_notation_to_index("f4");
    let diag_up_mask = bitmask.diag_up_masks[index];
    let occupy_mask = 0b00000000_00000000_10000000_00000000_00100000_00010000_00000000_00000000 & diag_up_mask;

    assert_eq!(0b00000000_00000000_10000000_01000000_00000000_00010000_00000000_00000000,
        bitmask.diag_up_attack_masks[index][util::kindergarten_transform_rank_diag(occupy_mask) as usize]);
}

#[test]
fn test_diagup_masks2() {
    let bitmask = BitMask::new();
    let index = util::map_sqr_notation_to_index("a5");
    let diag_up_mask = bitmask.diag_up_masks[index];
    let occupy_mask = 0b00000000_00000100_00000000_00000001_00000000_00000000_00000000_00000000 & diag_up_mask;

    assert_eq!(0b00000000_00000100_00000010_00000000_00000000_00000000_00000000_00000000,
        bitmask.diag_up_attack_masks[index][util::kindergarten_transform_rank_diag(occupy_mask) as usize]);
}

#[test]
fn test_diagdown_masks() {
    let bitmask = BitMask::new();
    let index = util::map_sqr_notation_to_index("g2");
    let diag_down_mask = bitmask.diag_down_masks[index];
    let occupy_mask = 0b00000000_00000000_00000000_00000000_00010000_00000000_01000000_00000000 & diag_down_mask;

    assert_eq!(0b00000000_00000000_00000000_00000000_00010000_00100000_00000000_10000000,
        bitmask.diag_down_attack_masks[index][util::kindergarten_transform_rank_diag(occupy_mask) as usize]);
}

#[test]
fn test_vertical_masks() {
    let bitmask = BitMask::new();
    let index = util::map_sqr_notation_to_index("e4");
    let occupy_mask = 0b00000000_00000000_00010000_00000000_00010000_00000000_00000000_00010000;

    assert_eq!(0b00000000_00000000_00010000_00010000_00000000_00010000_00010000_00010000,
        bitmask.vertical_attack_masks[index][util::kindergarten_transform_file(occupy_mask, index) as usize]);
}

#[test]
fn test_vertical_masks1() {
    let bitmask = BitMask::new();
    let index = util::map_sqr_notation_to_index("h2");
    let occupy_mask = 0b00000000_00000000_00000000_00000000_10000000_00000000_10000000_00000000;

    assert_eq!(0b00000000_00000000_00000000_00000000_10000000_10000000_00000000_10000000,
        bitmask.vertical_attack_masks[index][util::kindergarten_transform_file(occupy_mask, index) as usize]);
}

#[test]
fn test_step_masks() {
    let bitmask = BitMask::new();
    let b1 = util::map_sqr_notation_to_index("b1");
    // knight on b1: a3, c3, d2
    assert_eq!((1u64 << 16) | (1u64 << 18) | (1u64 << 11), bitmask.n_attack_masks[b1]);
    // king on a1: b1, a2, b2
    assert_eq!((1u64 << 1) | (1u64 << 8) | (1u64 << 9), bitmask.k_attack_masks[0]);
    // white pawn on e2 attacks d3 and f3, moves to e3, double steps to e4
    let e2 = util::map_sqr_notation_to_index("e2");
    assert_eq!((1u64 << 19) | (1u64 << 21), bitmask.wp_attack_masks[e2]);
    assert_eq!(1u64 << 20, bitmask.wp_mov_masks[e2]);
    assert_eq!(1u64 << 28, bitmask.wp_init_mov_masks[e2]);
    // black pawn on a7 attacks b6 only
    assert_eq!(1u64 << 41, bitmask.bp_attack_masks[48]);
    // no pawn moves from the first rank
    assert_eq!(0, bitmask.wp_mov_masks[4]);
}

#[test]
fn test_structure_masks() {
    let bitmask = BitMask::new();
    // squares ahead of a white pawn on a7: a8 and b8
    assert_eq!((1u64 << 56) | (1u64 << 57), bitmask.wp_forward_masks[48]);
    // bishop on a1 sees the long diagonal
    assert_eq!(0x8040_2010_0804_0200, bitmask.b_cover_masks[0]);
    // white king zone on g1
    let g1 = 6;
    let expected = (1u64 << 5) | (1u64 << 7) | (1u64 << 13) | (1u64 << 14) | (1u64 << 15)
        | (1u64 << 21) | (1u64 << 22) | (1u64 << 23);
    assert_eq!(expected, bitmask.wk_attack_zone_masks[g1]);
    // no white king zone from the sixth rank up
    assert_eq!(0, bitmask.wk_attack_zone_masks[50]);
}
