pub mod bitboard;
pub mod bitmask;
pub mod bits;
pub mod config;
pub mod def;
pub mod eval;
pub mod eval_params;
pub mod fen;
pub mod hashtable;
pub mod mov_gen;
pub mod mov_ordering;
pub mod mov_table;
pub mod mov_tbl;
pub mod prng;
pub mod search;
pub mod search_params;
pub mod simple_rnd;
pub mod slide;
pub mod state;
pub mod text;
pub mod time_control;
pub mod uci;
pub mod util;
pub mod zob_keys;
pub mod features;
pub mod tactical;
pub mod playable;
pub mod mov_count;
pub mod clock;
