use foxsee::def;
use foxsee::prng::XorshiftPrng;

#[test]
fn test_gen_rand() {
    let mut rand = XorshiftPrng::new();
    let rand_table = rand.create_prn_table(def::BOARD_SIZE, def::PIECE_CODE_RANGE);

    let mut hash_key = 0;
    for i in 0..def::BOARD_SIZE {
        for j in 0..def::PIECE_CODE_RANGE {
            hash_key ^= rand_table[i][j];

            if hash_key == 0 {
                panic!("bad hash");
            }
        }
    }
}
