//! The tuning parameters of the evaluation: piece values and the weights of positional features.
use vstd::prelude::*;
use crate::config::{has_int, int_of, get_i32, has_i32};

verus! {

pub struct EvalParams {
    pub q_val: i32,
    pub r_val: i32,
    pub b_val: i32,
    pub n_val: i32,
    pub p_val: i32,

    pub mp_q_val: i32,
    pub mp_r_val: i32,
    pub mp_b_val: i32,
    pub mp_n_val: i32,
    pub mp_p_val: i32,

    pub pp_q_val: i32,
    pub pp_r_val: i32,
    pub pp_b_val: i32,
    pub pp_n_val: i32,
    pub pp_p_val: i32,

    pub mp_p_sqr_base_val: i32,
    pub mp_p_eg_sqr_base_val: i32,
    pub mp_n_sqr_base_val: i32,
    pub mp_b_sqr_base_val: i32,
    pub mp_r_sqr_base_val: i32,
    pub mp_k_sqr_base_val: i32,
    pub mp_k_eg_sqr_base_val: i32,

    pub pp_p_sqr_base_val: i32,
    pub pp_p_eg_sqr_base_val: i32,
    pub pp_n_sqr_base_val: i32,
    pub pp_b_sqr_base_val: i32,
    pub pp_r_sqr_base_val: i32,
    pub pp_k_sqr_base_val: i32,
    pub pp_k_eg_sqr_base_val: i32,

    pub mp_isolated_pawn_val: i32,
    pub mp_doubled_pawn_val: i32,
    pub mp_behind_pawn_val: i32,
    pub rmp_isolated_pawn_val: i32,
    pub rmp_doubled_pawn_val: i32,
    pub rmp_behind_pawn_val: i32,

    pub pp_isolated_pawn_val: i32,
    pub pp_doubled_pawn_val: i32,
    pub pp_behind_pawn_val: i32,
    pub rpp_isolated_pawn_val: i32,
    pub rpp_doubled_pawn_val: i32,
    pub rpp_behind_pawn_val: i32,

    pub mp_passer_base_val: i32,
    pub mp_passer_rank_val: i32,
    pub mp_candidate_passer_base_val: i32,
    pub mp_candidate_passer_rank_val: i32,
    pub rmp_passer_base_val: i32,
    pub rmp_passer_rank_val: i32,
    pub rmp_candidate_passer_base_val: i32,
    pub rmp_candidate_passer_rank_val: i32,

    pub pp_passer_base_val: i32,
    pub pp_passer_rank_val: i32,
    pub pp_candidate_passer_base_val: i32,
    pub pp_candidate_passer_rank_val: i32,
    pub rpp_passer_base_val: i32,
    pub rpp_passer_rank_val: i32,
    pub rpp_candidate_passer_base_val: i32,
    pub rpp_candidate_passer_rank_val: i32,

    pub mp_pk_attack_val: i32,
    pub mp_nk_attack_val: i32,
    pub mp_bk_attack_val: i32,
    pub mp_rk_attack_val: i32,
    pub mp_qk_attack_val: i32,

    pub pp_pk_attack_val: i32,
    pub pp_nk_attack_val: i32,
    pub pp_bk_attack_val: i32,
    pub pp_rk_attack_val: i32,
    pub pp_qk_attack_val: i32,

    pub mp_king_pawn_protection_val: i32,
    pub mp_king_front_open_val: i32,
    pub mp_king_front_total_open_val: i32,
    pub mp_king_front_enery_pawn_cover_val: i32,
    pub mp_king_side_file_open_val: i32,
    pub mp_king_near_side_file_open_val: i32,

    pub pp_king_pawn_protection_val: i32,
    pub pp_king_front_open_val: i32,
    pub pp_king_front_total_open_val: i32,
    pub pp_king_front_enery_pawn_cover_val: i32,
    pub pp_king_side_file_open_val: i32,
    pub pp_king_near_side_file_open_val: i32,

    pub mp_king_cas_rights_val: i32,
    pub rmp_king_cas_rights_val: i32,
    pub pp_king_cas_rights_val: i32,
    pub rpp_king_cas_rights_val: i32,

    pub mp_rook_open_val: i32,
    pub mp_rook_semi_open_val: i32,

    pub pp_rook_open_val: i32,
    pub pp_rook_semi_open_val: i32,

    pub mp_pin_val: i32,
    pub mp_semi_pin_val: i32,

    pub pp_pin_val: i32,
    pub pp_semi_pin_val: i32,

    pub mp_unprotected_sqr_val: i32,
    pub mp_under_attacked_sqr_val: i32,

    pub pp_unprotected_sqr_val: i32,
    pub pp_under_attacked_sqr_val: i32,

    pub mp_protected_p_val: i32,
    pub mp_protected_n_val: i32,
    pub mp_protected_b_val: i32,
    pub mp_protected_r_val: i32,

    pub pp_protected_p_val: i32,
    pub pp_protected_n_val: i32,
    pub pp_protected_b_val: i32,
    pub pp_protected_r_val: i32,

    pub mp_np_protected_3rd_rank_sqr_val: i32,
    pub mp_np_protected_4th_rank_sqr_val: i32,

    pub pp_np_protected_3rd_rank_sqr_val: i32,
    pub pp_np_protected_4th_rank_sqr_val: i32,

    pub mp_n_mob_base_val: i32,
    pub mp_b_mob_base_val: i32,
    pub mp_r_mob_base_val: i32,
    pub mp_q_mob_base_val: i32,

    pub pp_n_mob_base_val: i32,
    pub pp_b_mob_base_val: i32,
    pub pp_r_mob_base_val: i32,
    pub pp_q_mob_base_val: i32,

    pub mp_n_weak_mob_base_val: i32,
    pub mp_b_weak_mob_base_val: i32,
    pub mp_r_weak_mob_base_val: i32,
    pub mp_q_weak_mob_base_val: i32,

    pub pp_n_weak_mob_base_val: i32,
    pub pp_b_weak_mob_base_val: i32,
    pub pp_r_weak_mob_base_val: i32,
    pub pp_q_weak_mob_base_val: i32,

    pub mp_n_stuck_val: i32,
    pub mp_b_stuck_val: i32,
    pub mp_r_stuck_val: i32,
    pub mp_q_stuck_val: i32,

    pub pp_n_stuck_val: i32,
    pub pp_b_stuck_val: i32,
    pub pp_r_stuck_val: i32,
    pub pp_q_stuck_val: i32,
    pub mp_k_mob_base_val: i32,
    pub mp_king_castled_val: i32,
    pub mp_king_near_open_file_val: i32,
    pub mp_king_near_opponent_semi_open_file_val: i32,
    pub mp_king_near_own_semi_open_file_val: i32,
    pub mp_king_on_open_file_val: i32,
    pub mp_king_on_opponent_semi_open_file_val: i32,
    pub mp_king_on_own_semi_open_file_val: i32,
    pub pp_k_mob_base_val: i32,
    pub pp_king_castled_val: i32,
    pub rmp_b_mob_base_val: i32,
    pub rmp_k_mob_base_val: i32,
    pub rmp_king_castled_val: i32,
    pub rmp_n_mob_base_val: i32,
    pub rmp_q_mob_base_val: i32,
    pub rmp_r_mob_base_val: i32,
    pub rpp_b_mob_base_val: i32,
    pub rpp_k_mob_base_val: i32,
    pub rpp_king_castled_val: i32,
    pub rpp_n_mob_base_val: i32,
    pub rpp_q_mob_base_val: i32,
    pub rpp_r_mob_base_val: i32,

    pub mp_tempo_val: i32,
    pub pp_tempo_val: i32,

    pub mp_pawn_essential_val: i32,
    pub pp_pawn_essential_val: i32,

    pub mp_different_color_bishop_val: i32,
    pub mp_different_color_bishop_with_rook_val: i32,

    pub pp_different_color_bishop_val: i32,
    pub pp_different_color_bishop_with_rook_val: i32,

    pub mp_bishop_pair_val: i32,
    pub pp_bishop_pair_val: i32,
}

/// The values the engine uses when no parameter file is given.
pub open spec fn default_eval_params() -> EvalParams {
    EvalParams {
        q_val: 1000,
        r_val: 500,
        b_val: 350,
        n_val: 345,
        p_val: 100,

        mp_q_val: 0,
        mp_r_val: 0,
        mp_b_val: 0,
        mp_n_val: 0,
        mp_p_val: 0,

        pp_q_val: 0,
        pp_r_val: 0,
        pp_b_val: 0,
        pp_n_val: 0,
        pp_p_val: 0,

        mp_p_sqr_base_val: 0,
        mp_p_eg_sqr_base_val: 0,
        mp_n_sqr_base_val: 7,
        mp_b_sqr_base_val: 2,
        mp_r_sqr_base_val: 0,
        mp_k_sqr_base_val: 0,
        mp_k_eg_sqr_base_val: 0,

        pp_p_sqr_base_val: 0,
        pp_p_eg_sqr_base_val: 0,
        pp_n_sqr_base_val: 0,
        pp_b_sqr_base_val: 0,
        pp_r_sqr_base_val: 0,
        pp_k_sqr_base_val: 0,
        pp_k_eg_sqr_base_val: 0,

        mp_isolated_pawn_val: -10i32,
        mp_doubled_pawn_val: 8,
        mp_behind_pawn_val: 0,
        rmp_isolated_pawn_val: -10i32,
        rmp_doubled_pawn_val: 8,
        rmp_behind_pawn_val: 0,

        pp_isolated_pawn_val: 0,
        pp_doubled_pawn_val: 0,
        pp_behind_pawn_val: 0,
        rpp_isolated_pawn_val: 0,
        rpp_doubled_pawn_val: 0,
        rpp_behind_pawn_val: 0,

        mp_passer_base_val: 0,
        mp_passer_rank_val: 0,
        mp_candidate_passer_base_val: 0,
        mp_candidate_passer_rank_val: 0,
        rmp_passer_base_val: 0,
        rmp_passer_rank_val: 24,
        rmp_candidate_passer_base_val: 0,
        rmp_candidate_passer_rank_val: 0,

        pp_passer_base_val: 0,
        pp_passer_rank_val: 0,
        pp_candidate_passer_base_val: 0,
        pp_candidate_passer_rank_val: 0,
        rpp_passer_base_val: 0,
        rpp_passer_rank_val: 0,
        rpp_candidate_passer_base_val: 0,
        rpp_candidate_passer_rank_val: 8,

        mp_pk_attack_val: 0,
        mp_nk_attack_val: 0,
        mp_bk_attack_val: 0,
        mp_rk_attack_val: 56,
        mp_qk_attack_val: 48,

        pp_pk_attack_val: 0,
        pp_nk_attack_val: 0,
        pp_bk_attack_val: 0,
        pp_rk_attack_val: 0,
        pp_qk_attack_val: 0,

        mp_king_pawn_protection_val: 0,
        mp_king_front_open_val: 0,
        mp_king_front_total_open_val: 0,
        mp_king_front_enery_pawn_cover_val: 0,
        mp_king_side_file_open_val: 0,
        mp_king_near_side_file_open_val: 0,

        pp_king_pawn_protection_val: 0,
        pp_king_front_open_val: 0,
        pp_king_front_total_open_val: 0,
        pp_king_front_enery_pawn_cover_val: 0,
        pp_king_side_file_open_val: 0,
        pp_king_near_side_file_open_val: 0,

        mp_king_cas_rights_val: 0,
        rmp_king_cas_rights_val: 0,
        pp_king_cas_rights_val: 0,
        rpp_king_cas_rights_val: 0,

        mp_rook_open_val: 16,
        mp_rook_semi_open_val: 48,

        pp_rook_open_val: 8,
        pp_rook_semi_open_val: 64,

        mp_pin_val: 0,
        mp_semi_pin_val: 0,

        pp_pin_val: 0,
        pp_semi_pin_val: 0,

        mp_unprotected_sqr_val: 0,
        mp_under_attacked_sqr_val: 0,

        pp_unprotected_sqr_val: 0,
        pp_under_attacked_sqr_val: 0,

        mp_protected_p_val: 16,
        mp_protected_n_val: 0,
        mp_protected_b_val: 0,
        mp_protected_r_val: 0,

        pp_protected_p_val: 0,
        pp_protected_n_val: 0,
        pp_protected_b_val: 0,
        pp_protected_r_val: 0,

        mp_np_protected_3rd_rank_sqr_val: 0,
        mp_np_protected_4th_rank_sqr_val: 0,

        pp_np_protected_3rd_rank_sqr_val: 0,
        pp_np_protected_4th_rank_sqr_val: 0,

        mp_n_mob_base_val: 6,
        mp_b_mob_base_val: 12,
        mp_r_mob_base_val: 0,
        mp_q_mob_base_val: 0,

        pp_n_mob_base_val: 0,
        pp_b_mob_base_val: 0,
        pp_r_mob_base_val: 0,
        pp_q_mob_base_val: 0,

        mp_n_weak_mob_base_val: 0,
        mp_b_weak_mob_base_val: 0,
        mp_r_weak_mob_base_val: 0,
        mp_q_weak_mob_base_val: 0,

        pp_n_weak_mob_base_val: 0,
        pp_b_weak_mob_base_val: 0,
        pp_r_weak_mob_base_val: 0,
        pp_q_weak_mob_base_val: 0,

        mp_n_stuck_val: 0,
        mp_b_stuck_val: 0,
        mp_r_stuck_val: 0,
        mp_q_stuck_val: 0,

        pp_n_stuck_val: 0,
        pp_b_stuck_val: 0,
        pp_r_stuck_val: 0,
        pp_q_stuck_val: 0,
        mp_k_mob_base_val: 0,
        mp_king_castled_val: 0,
        mp_king_near_open_file_val: 0,
        mp_king_near_opponent_semi_open_file_val: 0,
        mp_king_near_own_semi_open_file_val: 0,
        mp_king_on_open_file_val: 0,
        mp_king_on_opponent_semi_open_file_val: 0,
        mp_king_on_own_semi_open_file_val: 0,
        pp_k_mob_base_val: 0,
        pp_king_castled_val: 0,
        rmp_b_mob_base_val: 0,
        rmp_k_mob_base_val: 0,
        rmp_king_castled_val: 0,
        rmp_n_mob_base_val: 0,
        rmp_q_mob_base_val: 0,
        rmp_r_mob_base_val: 0,
        rpp_b_mob_base_val: 0,
        rpp_k_mob_base_val: 0,
        rpp_king_castled_val: 0,
        rpp_n_mob_base_val: 0,
        rpp_q_mob_base_val: 0,
        rpp_r_mob_base_val: 0,

        mp_tempo_val: 0,
        pp_tempo_val: 0,

        mp_pawn_essential_val: 0,
        pp_pawn_essential_val: 0,

        mp_different_color_bishop_val: 0,
        mp_different_color_bishop_with_rook_val: 0,

        pp_different_color_bishop_val: 0,
        pp_different_color_bishop_with_rook_val: 0,

        mp_bishop_pair_val: 0,
        pp_bishop_pair_val: 0,
    }
}

/// The list of pairs names every parameter with an integer in the range of its type.
pub open spec fn eval_config_ok(cfg: Seq<(String, String)>) -> bool {
    &&& has_int(cfg, "q_val"@, i32::MIN as int, i32::MAX as int, true)
    &&& has_int(cfg, "r_val"@, i32::MIN as int, i32::MAX as int, true)
    &&& has_int(cfg, "b_val"@, i32::MIN as int, i32::MAX as int, true)
    &&& has_int(cfg, "n_val"@, i32::MIN as int, i32::MAX as int, true)
    &&& has_int(cfg, "p_val"@, i32::MIN as int, i32::MAX as int, true)
    &&& has_int(cfg, "mp_q_val"@, i32::MIN as int, i32::MAX as int, true)
    &&& has_int(cfg, "mp_r_val"@, i32::MIN as int, i32::MAX as int, true)
    &&& has_int(cfg, "mp_b_val"@, i32::MIN as int, i32::MAX as int, true)
    &&& has_int(cfg, "mp_n_val"@, i32::MIN as int, i32::MAX as int, true)
    &&& has_int(cfg, "mp_p_val"@, i32::MIN as int, i32::MAX as int, true)
    &&& has_int(cfg, "pp_q_val"@, i32::MIN as int, i32::MAX as int, true)
    &&& has_int(cfg, "pp_r_val"@, i32::MIN as int, i32::MAX as int, true)
    &&& has_int(cfg, "pp_b_val"@, i32::MIN as int, i32::MAX as int, true)
    &&& has_int(cfg, "pp_n_val"@, i32::MIN as int, i32::MAX as int, true)
    &&& has_int(cfg, "pp_p_val"@, i32::MIN as int, i32::MAX as int, true)
    &&& has_int(cfg, "mp_p_sqr_base_val"@, i32::MIN as int, i32::MAX as int, true)
    &&& has_int(cfg, "mp_p_eg_sqr_base_val"@, i32::MIN as int, i32::MAX as int, true)
    &&& has_int(cfg, "mp_n_sqr_base_val"@, i32::MIN as int, i32::MAX as int, true)
    &&& has_int(cfg, "mp_b_sqr_base_val"@, i32::MIN as int, i32::MAX as int, true)
    &&& has_int(cfg, "mp_r_sqr_base_val"@, i32::MIN as int, i32::MAX as int, true)
    &&& has_int(cfg, "mp_k_sqr_base_val"@, i32::MIN as int, i32::MAX as int, true)
    &&& has_int(cfg, "mp_k_eg_sqr_base_val"@, i32::MIN as int, i32::MAX as int, true)
    &&& has_int(cfg, "pp_p_sqr_base_val"@, i32::MIN as int, i32::MAX as int, true)
    &&& has_int(cfg, "pp_p_eg_sqr_base_val"@, i32::MIN as int, i32::MAX as int, true)
    &&& has_int(cfg, "pp_n_sqr_base_val"@, i32::MIN as int, i32::MAX as int, true)
    &&& has_int(cfg, "pp_b_sqr_base_val"@, i32::MIN as int, i32::MAX as int, true)
    &&& has_int(cfg, "pp_r_sqr_base_val"@, i32::MIN as int, i32::MAX as int, true)
    &&& has_int(cfg, "pp_k_sqr_base_val"@, i32::MIN as int, i32::MAX as int, true)
    &&& has_int(cfg, "pp_k_eg_sqr_base_val"@, i32::MIN as int, i32::MAX as int, true)
    &&& has_int(cfg, "mp_isolated_pawn_val"@, i32::MIN as int, i32::MAX as int, true)
    &&& has_int(cfg, "mp_doubled_pawn_val"@, i32::MIN as int, i32::MAX as int, true)
    &&& has_int(cfg, "mp_behind_pawn_val"@, i32::MIN as int, i32::MAX as int, true)
    &&& has_int(cfg, "rmp_isolated_pawn_val"@, i32::MIN as int, i32::MAX as int, true)
    &&& has_int(cfg, "rmp_doubled_pawn_val"@, i32::MIN as int, i32::MAX as int, true)
    &&& has_int(cfg, "rmp_behind_pawn_val"@, i32::MIN as int, i32::MAX as int, true)
    &&& has_int(cfg, "pp_isolated_pawn_val"@, i32::MIN as int, i32::MAX as int, true)
    &&& has_int(cfg, "pp_doubled_pawn_val"@, i32::MIN as int, i32::MAX as int, true)
    &&& has_int(cfg, "pp_behind_pawn_val"@, i32::MIN as int, i32::MAX as int, true)
    &&& has_int(cfg, "rpp_isolated_pawn_val"@, i32::MIN as int, i32::MAX as int, true)
    &&& has_int(cfg, "rpp_doubled_pawn_val"@, i32::MIN as int, i32::MAX as int, true)
    &&& has_int(cfg, "rpp_behind_pawn_val"@, i32::MIN as int, i32::MAX as int, true)
    &&& has_int(cfg, "mp_passer_base_val"@, i32::MIN as int, i32::MAX as int, true)
    &&& has_int(cfg, "mp_passer_rank_val"@, i32::MIN as int, i32::MAX as int, true)
    &&& has_int(cfg, "mp_candidate_passer_base_val"@, i32::MIN as int, i32::MAX as int, true)
    &&& has_int(cfg, "mp_candidate_passer_rank_val"@, i32::MIN as int, i32::MAX as int, true)
    &&& has_int(cfg, "rmp_passer_base_val"@, i32::MIN as int, i32::MAX as int, true)
    &&& has_int(cfg, "rmp_passer_rank_val"@, i32::MIN as int, i32::MAX as int, true)
    &&& has_int(cfg, "rmp_candidate_passer_base_val"@, i32::MIN as int, i32::MAX as int, true)
    &&& has_int(cfg, "rmp_candidate_passer_rank_val"@, i32::MIN as int, i32::MAX as int, true)
    &&& has_int(cfg, "pp_passer_base_val"@, i32::MIN as int, i32::MAX as int, true)
    &&& has_int(cfg, "pp_passer_rank_val"@, i32::MIN as int, i32::MAX as int, true)
    &&& has_int(cfg, "pp_candidate_passer_base_val"@, i32::MIN as int, i32::MAX as int, true)
    &&& has_int(cfg, "pp_candidate_passer_rank_val"@, i32::MIN as int, i32::MAX as int, true)
    &&& has_int(cfg, "rpp_passer_base_val"@, i32::MIN as int, i32::MAX as int, true)
    &&& has_int(cfg, "rpp_passer_rank_val"@, i32::MIN as int, i32::MAX as int, true)
    &&& has_int(cfg, "rpp_candidate_passer_base_val"@, i32::MIN as int, i32::MAX as int, true)
    &&& has_int(cfg, "rpp_candidate_passer_rank_val"@, i32::MIN as int, i32::MAX as int, true)
    &&& has_int(cfg, "mp_pk_attack_val"@, i32::MIN as int, i32::MAX as int, true)
    &&& has_int(cfg, "mp_nk_attack_val"@, i32::MIN as int, i32::MAX as int, true)
    &&& has_int(cfg, "mp_bk_attack_val"@, i32::MIN as int, i32::MAX as int, true)
    &&& has_int(cfg, "mp_rk_attack_val"@, i32::MIN as int, i32::MAX as int, true)
    &&& has_int(cfg, "mp_qk_attack_val"@, i32::MIN as int, i32::MAX as int, true)
    &&& has_int(cfg, "pp_pk_attack_val"@, i32::MIN as int, i32::MAX as int, true)
    &&& has_int(cfg, "pp_nk_attack_val"@, i32::MIN as int, i32::MAX as int, true)
    &&& has_int(cfg, "pp_bk_attack_val"@, i32::MIN as int, i32::MAX as int, true)
    &&& has_int(cfg, "pp_rk_attack_val"@, i32::MIN as int, i32::MAX as int, true)
    &&& has_int(cfg, "pp_qk_attack_val"@, i32::MIN as int, i32::MAX as int, true)
    &&& has_int(cfg, "mp_king_pawn_protection_val"@, i32::MIN as int, i32::MAX as int, true)
    &&& has_int(cfg, "mp_king_front_open_val"@, i32::MIN as int, i32::MAX as int, true)
    &&& has_int(cfg, "mp_king_front_total_open_val"@, i32::MIN as int, i32::MAX as int, true)
    &&& has_int(cfg, "mp_king_front_enery_pawn_cover_val"@, i32::MIN as int, i32::MAX as int, true)
    &&& has_int(cfg, "mp_king_side_file_open_val"@, i32::MIN as int, i32::MAX as int, true)
    &&& has_int(cfg, "mp_king_near_side_file_open_val"@, i32::MIN as int, i32::MAX as int, true)
    &&& has_int(cfg, "pp_king_pawn_protection_val"@, i32::MIN as int, i32::MAX as int, true)
    &&& has_int(cfg, "pp_king_front_open_val"@, i32::MIN as int, i32::MAX as int, true)
    &&& has_int(cfg, "pp_king_front_total_open_val"@, i32::MIN as int, i32::MAX as int, true)
    &&& has_int(cfg, "pp_king_front_enery_pawn_cover_val"@, i32::MIN as int, i32::MAX as int, true)
    &&& has_int(cfg, "pp_king_side_file_open_val"@, i32::MIN as int, i32::MAX as int, true)
    &&& has_int(cfg, "pp_king_near_side_file_open_val"@, i32::MIN as int, i32::MAX as int, true)
    &&& has_int(cfg, "mp_king_cas_rights_val"@, i32::MIN as int, i32::MAX as int, true)
    &&& has_int(cfg, "rmp_king_cas_rights_val"@, i32::MIN as int, i32::MAX as int, true)
    &&& has_int(cfg, "pp_king_cas_rights_val"@, i32::MIN as int, i32::MAX as int, true)
    &&& has_int(cfg, "rpp_king_cas_rights_val"@, i32::MIN as int, i32::MAX as int, true)
    &&& has_int(cfg, "mp_rook_open_val"@, i32::MIN as int, i32::MAX as int, true)
    &&& has_int(cfg, "mp_rook_semi_open_val"@, i32::MIN as int, i32::MAX as int, true)
    &&& has_int(cfg, "pp_rook_open_val"@, i32::MIN as int, i32::MAX as int, true)
    &&& has_int(cfg, "pp_rook_semi_open_val"@, i32::MIN as int, i32::MAX as int, true)
    &&& has_int(cfg, "mp_pin_val"@, i32::MIN as int, i32::MAX as int, true)
    &&& has_int(cfg, "mp_semi_pin_val"@, i32::MIN as int, i32::MAX as int, true)
    &&& has_int(cfg, "pp_pin_val"@, i32::MIN as int, i32::MAX as int, true)
    &&& has_int(cfg, "pp_semi_pin_val"@, i32::MIN as int, i32::MAX as int, true)
    &&& has_int(cfg, "mp_unprotected_sqr_val"@, i32::MIN as int, i32::MAX as int, true)
    &&& has_int(cfg, "mp_under_attacked_sqr_val"@, i32::MIN as int, i32::MAX as int, true)
    &&& has_int(cfg, "pp_unprotected_sqr_val"@, i32::MIN as int, i32::MAX as int, true)
    &&& has_int(cfg, "pp_under_attacked_sqr_val"@, i32::MIN as int, i32::MAX as int, true)
    &&& has_int(cfg, "mp_protected_p_val"@, i32::MIN as int, i32::MAX as int, true)
    &&& has_int(cfg, "mp_protected_n_val"@, i32::MIN as int, i32::MAX as int, true)
    &&& has_int(cfg, "mp_protected_b_val"@, i32::MIN as int, i32::MAX as int, true)
    &&& has_int(cfg, "mp_protected_r_val"@, i32::MIN as int, i32::MAX as int, true)
    &&& has_int(cfg, "pp_protected_p_val"@, i32::MIN as int, i32::MAX as int, true)
    &&& has_int(cfg, "pp_protected_n_val"@, i32::MIN as int, i32::MAX as int, true)
    &&& has_int(cfg, "pp_protected_b_val"@, i32::MIN as int, i32::MAX as int, true)
    &&& has_int(cfg, "pp_protected_r_val"@, i32::MIN as int, i32::MAX as int, true)
    &&& has_int(cfg, "mp_np_protected_3rd_rank_sqr_val"@, i32::MIN as int, i32::MAX as int, true)
    &&& has_int(cfg, "mp_np_protected_4th_rank_sqr_val"@, i32::MIN as int, i32::MAX as int, true)
    &&& has_int(cfg, "pp_np_protected_3rd_rank_sqr_val"@, i32::MIN as int, i32::MAX as int, true)
    &&& has_int(cfg, "pp_np_protected_4th_rank_sqr_val"@, i32::MIN as int, i32::MAX as int, true)
    &&& has_int(cfg, "mp_n_mob_base_val"@, i32::MIN as int, i32::MAX as int, true)
    &&& has_int(cfg, "mp_b_mob_base_val"@, i32::MIN as int, i32::MAX as int, true)
    &&& has_int(cfg, "mp_r_mob_base_val"@, i32::MIN as int, i32::MAX as int, true)
    &&& has_int(cfg, "mp_q_mob_base_val"@, i32::MIN as int, i32::MAX as int, true)
    &&& has_int(cfg, "pp_n_mob_base_val"@, i32::MIN as int, i32::MAX as int, true)
    &&& has_int(cfg, "pp_b_mob_base_val"@, i32::MIN as int, i32::MAX as int, true)
    &&& has_int(cfg, "pp_r_mob_base_val"@, i32::MIN as int, i32::MAX as int, true)
    &&& has_int(cfg, "pp_q_mob_base_val"@, i32::MIN as int, i32::MAX as int, true)
    &&& has_int(cfg, "mp_n_weak_mob_base_val"@, i32::MIN as int, i32::MAX as int, true)
    &&& has_int(cfg, "mp_b_weak_mob_base_val"@, i32::MIN as int, i32::MAX as int, true)
    &&& has_int(cfg, "mp_r_weak_mob_base_val"@, i32::MIN as int, i32::MAX as int, true)
    &&& has_int(cfg, "mp_q_weak_mob_base_val"@, i32::MIN as int, i32::MAX as int, true)
    &&& has_int(cfg, "pp_n_weak_mob_base_val"@, i32::MIN as int, i32::MAX as int, true)
    &&& has_int(cfg, "pp_b_weak_mob_base_val"@, i32::MIN as int, i32::MAX as int, true)
    &&& has_int(cfg, "pp_r_weak_mob_base_val"@, i32::MIN as int, i32::MAX as int, true)
    &&& has_int(cfg, "pp_q_weak_mob_base_val"@, i32::MIN as int, i32::MAX as int, true)
    &&& has_int(cfg, "mp_n_stuck_val"@, i32::MIN as int, i32::MAX as int, true)
    &&& has_int(cfg, "mp_b_stuck_val"@, i32::MIN as int, i32::MAX as int, true)
    &&& has_int(cfg, "mp_r_stuck_val"@, i32::MIN as int, i32::MAX as int, true)
    &&& has_int(cfg, "mp_q_stuck_val"@, i32::MIN as int, i32::MAX as int, true)
    &&& has_int(cfg, "pp_n_stuck_val"@, i32::MIN as int, i32::MAX as int, true)
    &&& has_int(cfg, "pp_b_stuck_val"@, i32::MIN as int, i32::MAX as int, true)
    &&& has_int(cfg, "pp_r_stuck_val"@, i32::MIN as int, i32::MAX as int, true)
    &&& has_int(cfg, "pp_q_stuck_val"@, i32::MIN as int, i32::MAX as int, true)
    &&& has_int(cfg, "mp_k_mob_base_val"@, i32::MIN as int, i32::MAX as int, true)
    &&& has_int(cfg, "mp_king_castled_val"@, i32::MIN as int, i32::MAX as int, true)
    &&& has_int(cfg, "mp_king_near_open_file_val"@, i32::MIN as int, i32::MAX as int, true)
    &&& has_int(cfg, "mp_king_near_opponent_semi_open_file_val"@, i32::MIN as int, i32::MAX as int, true)
    &&& has_int(cfg, "mp_king_near_own_semi_open_file_val"@, i32::MIN as int, i32::MAX as int, true)
    &&& has_int(cfg, "mp_king_on_open_file_val"@, i32::MIN as int, i32::MAX as int, true)
    &&& has_int(cfg, "mp_king_on_opponent_semi_open_file_val"@, i32::MIN as int, i32::MAX as int, true)
    &&& has_int(cfg, "mp_king_on_own_semi_open_file_val"@, i32::MIN as int, i32::MAX as int, true)
    &&& has_int(cfg, "pp_k_mob_base_val"@, i32::MIN as int, i32::MAX as int, true)
    &&& has_int(cfg, "pp_king_castled_val"@, i32::MIN as int, i32::MAX as int, true)
    &&& has_int(cfg, "rmp_b_mob_base_val"@, i32::MIN as int, i32::MAX as int, true)
    &&& has_int(cfg, "rmp_k_mob_base_val"@, i32::MIN as int, i32::MAX as int, true)
    &&& has_int(cfg, "rmp_king_castled_val"@, i32::MIN as int, i32::MAX as int, true)
    &&& has_int(cfg, "rmp_n_mob_base_val"@, i32::MIN as int, i32::MAX as int, true)
    &&& has_int(cfg, "rmp_q_mob_base_val"@, i32::MIN as int, i32::MAX as int, true)
    &&& has_int(cfg, "rmp_r_mob_base_val"@, i32::MIN as int, i32::MAX as int, true)
    &&& has_int(cfg, "rpp_b_mob_base_val"@, i32::MIN as int, i32::MAX as int, true)
    &&& has_int(cfg, "rpp_k_mob_base_val"@, i32::MIN as int, i32::MAX as int, true)
    &&& has_int(cfg, "rpp_king_castled_val"@, i32::MIN as int, i32::MAX as int, true)
    &&& has_int(cfg, "rpp_n_mob_base_val"@, i32::MIN as int, i32::MAX as int, true)
    &&& has_int(cfg, "rpp_q_mob_base_val"@, i32::MIN as int, i32::MAX as int, true)
    &&& has_int(cfg, "rpp_r_mob_base_val"@, i32::MIN as int, i32::MAX as int, true)
    &&& has_int(cfg, "mp_tempo_val"@, i32::MIN as int, i32::MAX as int, true)
    &&& has_int(cfg, "pp_tempo_val"@, i32::MIN as int, i32::MAX as int, true)
    &&& has_int(cfg, "mp_pawn_essential_val"@, i32::MIN as int, i32::MAX as int, true)
    &&& has_int(cfg, "pp_pawn_essential_val"@, i32::MIN as int, i32::MAX as int, true)
    &&& has_int(cfg, "mp_different_color_bishop_val"@, i32::MIN as int, i32::MAX as int, true)
    &&& has_int(cfg, "mp_different_color_bishop_with_rook_val"@, i32::MIN as int, i32::MAX as int, true)
    &&& has_int(cfg, "pp_different_color_bishop_val"@, i32::MIN as int, i32::MAX as int, true)
    &&& has_int(cfg, "pp_different_color_bishop_with_rook_val"@, i32::MIN as int, i32::MAX as int, true)
    &&& has_int(cfg, "mp_bishop_pair_val"@, i32::MIN as int, i32::MAX as int, true)
    &&& has_int(cfg, "pp_bishop_pair_val"@, i32::MIN as int, i32::MAX as int, true)
}

/// The parameters that the list of pairs gives.
pub open spec fn eval_params_of(cfg: Seq<(String, String)>) -> EvalParams {
    EvalParams {
        q_val: int_of(cfg, "q_val"@, true) as i32,
        r_val: int_of(cfg, "r_val"@, true) as i32,
        b_val: int_of(cfg, "b_val"@, true) as i32,
        n_val: int_of(cfg, "n_val"@, true) as i32,
        p_val: int_of(cfg, "p_val"@, true) as i32,

        mp_q_val: int_of(cfg, "mp_q_val"@, true) as i32,
        mp_r_val: int_of(cfg, "mp_r_val"@, true) as i32,
        mp_b_val: int_of(cfg, "mp_b_val"@, true) as i32,
        mp_n_val: int_of(cfg, "mp_n_val"@, true) as i32,
        mp_p_val: int_of(cfg, "mp_p_val"@, true) as i32,

        pp_q_val: int_of(cfg, "pp_q_val"@, true) as i32,
        pp_r_val: int_of(cfg, "pp_r_val"@, true) as i32,
        pp_b_val: int_of(cfg, "pp_b_val"@, true) as i32,
        pp_n_val: int_of(cfg, "pp_n_val"@, true) as i32,
        pp_p_val: int_of(cfg, "pp_p_val"@, true) as i32,

        mp_p_sqr_base_val: int_of(cfg, "mp_p_sqr_base_val"@, true) as i32,
        mp_p_eg_sqr_base_val: int_of(cfg, "mp_p_eg_sqr_base_val"@, true) as i32,
        mp_n_sqr_base_val: int_of(cfg, "mp_n_sqr_base_val"@, true) as i32,
        mp_b_sqr_base_val: int_of(cfg, "mp_b_sqr_base_val"@, true) as i32,
        mp_r_sqr_base_val: int_of(cfg, "mp_r_sqr_base_val"@, true) as i32,
        mp_k_sqr_base_val: int_of(cfg, "mp_k_sqr_base_val"@, true) as i32,
        mp_k_eg_sqr_base_val: int_of(cfg, "mp_k_eg_sqr_base_val"@, true) as i32,

        pp_p_sqr_base_val: int_of(cfg, "pp_p_sqr_base_val"@, true) as i32,
        pp_p_eg_sqr_base_val: int_of(cfg, "pp_p_eg_sqr_base_val"@, true) as i32,
        pp_n_sqr_base_val: int_of(cfg, "pp_n_sqr_base_val"@, true) as i32,
        pp_b_sqr_base_val: int_of(cfg, "pp_b_sqr_base_val"@, true) as i32,
        pp_r_sqr_base_val: int_of(cfg, "pp_r_sqr_base_val"@, true) as i32,
        pp_k_sqr_base_val: int_of(cfg, "pp_k_sqr_base_val"@, true) as i32,
        pp_k_eg_sqr_base_val: int_of(cfg, "pp_k_eg_sqr_base_val"@, true) as i32,

        mp_isolated_pawn_val: int_of(cfg, "mp_isolated_pawn_val"@, true) as i32,
        mp_doubled_pawn_val: int_of(cfg, "mp_doubled_pawn_val"@, true) as i32,
        mp_behind_pawn_val: int_of(cfg, "mp_behind_pawn_val"@, true) as i32,
        rmp_isolated_pawn_val: int_of(cfg, "rmp_isolated_pawn_val"@, true) as i32,
        rmp_doubled_pawn_val: int_of(cfg, "rmp_doubled_pawn_val"@, true) as i32,
        rmp_behind_pawn_val: int_of(cfg, "rmp_behind_pawn_val"@, true) as i32,

        pp_isolated_pawn_val: int_of(cfg, "pp_isolated_pawn_val"@, true) as i32,
        pp_doubled_pawn_val: int_of(cfg, "pp_doubled_pawn_val"@, true) as i32,
        pp_behind_pawn_val: int_of(cfg, "pp_behind_pawn_val"@, true) as i32,
        rpp_isolated_pawn_val: int_of(cfg, "rpp_isolated_pawn_val"@, true) as i32,
        rpp_doubled_pawn_val: int_of(cfg, "rpp_doubled_pawn_val"@, true) as i32,
        rpp_behind_pawn_val: int_of(cfg, "rpp_behind_pawn_val"@, true) as i32,

        mp_passer_base_val: int_of(cfg, "mp_passer_base_val"@, true) as i32,
        mp_passer_rank_val: int_of(cfg, "mp_passer_rank_val"@, true) as i32,
        mp_candidate_passer_base_val: int_of(cfg, "mp_candidate_passer_base_val"@, true) as i32,
        mp_candidate_passer_rank_val: int_of(cfg, "mp_candidate_passer_rank_val"@, true) as i32,
        rmp_passer_base_val: int_of(cfg, "rmp_passer_base_val"@, true) as i32,
        rmp_passer_rank_val: int_of(cfg, "rmp_passer_rank_val"@, true) as i32,
        rmp_candidate_passer_base_val: int_of(cfg, "rmp_candidate_passer_base_val"@, true) as i32,
        rmp_candidate_passer_rank_val: int_of(cfg, "rmp_candidate_passer_rank_val"@, true) as i32,

        pp_passer_base_val: int_of(cfg, "pp_passer_base_val"@, true) as i32,
        pp_passer_rank_val: int_of(cfg, "pp_passer_rank_val"@, true) as i32,
        pp_candidate_passer_base_val: int_of(cfg, "pp_candidate_passer_base_val"@, true) as i32,
        pp_candidate_passer_rank_val: int_of(cfg, "pp_candidate_passer_rank_val"@, true) as i32,
        rpp_passer_base_val: int_of(cfg, "rpp_passer_base_val"@, true) as i32,
        rpp_passer_rank_val: int_of(cfg, "rpp_passer_rank_val"@, true) as i32,
        rpp_candidate_passer_base_val: int_of(cfg, "rpp_candidate_passer_base_val"@, true) as i32,
        rpp_candidate_passer_rank_val: int_of(cfg, "rpp_candidate_passer_rank_val"@, true) as i32,

        mp_pk_attack_val: int_of(cfg, "mp_pk_attack_val"@, true) as i32,
        mp_nk_attack_val: int_of(cfg, "mp_nk_attack_val"@, true) as i32,
        mp_bk_attack_val: int_of(cfg, "mp_bk_attack_val"@, true) as i32,
        mp_rk_attack_val: int_of(cfg, "mp_rk_attack_val"@, true) as i32,
        mp_qk_attack_val: int_of(cfg, "mp_qk_attack_val"@, true) as i32,

        pp_pk_attack_val: int_of(cfg, "pp_pk_attack_val"@, true) as i32,
        pp_nk_attack_val: int_of(cfg, "pp_nk_attack_val"@, true) as i32,
        pp_bk_attack_val: int_of(cfg, "pp_bk_attack_val"@, true) as i32,
        pp_rk_attack_val: int_of(cfg, "pp_rk_attack_val"@, true) as i32,
        pp_qk_attack_val: int_of(cfg, "pp_qk_attack_val"@, true) as i32,

        mp_king_pawn_protection_val: int_of(cfg, "mp_king_pawn_protection_val"@, true) as i32,
        mp_king_front_open_val: int_of(cfg, "mp_king_front_open_val"@, true) as i32,
        mp_king_front_total_open_val: int_of(cfg, "mp_king_front_total_open_val"@, true) as i32,
        mp_king_front_enery_pawn_cover_val: int_of(cfg, "mp_king_front_enery_pawn_cover_val"@, true) as i32,
        mp_king_side_file_open_val: int_of(cfg, "mp_king_side_file_open_val"@, true) as i32,
        mp_king_near_side_file_open_val: int_of(cfg, "mp_king_near_side_file_open_val"@, true) as i32,

        pp_king_pawn_protection_val: int_of(cfg, "pp_king_pawn_protection_val"@, true) as i32,
        pp_king_front_open_val: int_of(cfg, "pp_king_front_open_val"@, true) as i32,
        pp_king_front_total_open_val: int_of(cfg, "pp_king_front_total_open_val"@, true) as i32,
        pp_king_front_enery_pawn_cover_val: int_of(cfg, "pp_king_front_enery_pawn_cover_val"@, true) as i32,
        pp_king_side_file_open_val: int_of(cfg, "pp_king_side_file_open_val"@, true) as i32,
        pp_king_near_side_file_open_val: int_of(cfg, "pp_king_near_side_file_open_val"@, true) as i32,

        mp_king_cas_rights_val: int_of(cfg, "mp_king_cas_rights_val"@, true) as i32,
        rmp_king_cas_rights_val: int_of(cfg, "rmp_king_cas_rights_val"@, true) as i32,
        pp_king_cas_rights_val: int_of(cfg, "pp_king_cas_rights_val"@, true) as i32,
        rpp_king_cas_rights_val: int_of(cfg, "rpp_king_cas_rights_val"@, true) as i32,

        mp_rook_open_val: int_of(cfg, "mp_rook_open_val"@, true) as i32,
        mp_rook_semi_open_val: int_of(cfg, "mp_rook_semi_open_val"@, true) as i32,

        pp_rook_open_val: int_of(cfg, "pp_rook_open_val"@, true) as i32,
        pp_rook_semi_open_val: int_of(cfg, "pp_rook_semi_open_val"@, true) as i32,

        mp_pin_val: int_of(cfg, "mp_pin_val"@, true) as i32,
        mp_semi_pin_val: int_of(cfg, "mp_semi_pin_val"@, true) as i32,

        pp_pin_val: int_of(cfg, "pp_pin_val"@, true) as i32,
        pp_semi_pin_val: int_of(cfg, "pp_semi_pin_val"@, true) as i32,

        mp_unprotected_sqr_val: int_of(cfg, "mp_unprotected_sqr_val"@, true) as i32,
        mp_under_attacked_sqr_val: int_of(cfg, "mp_under_attacked_sqr_val"@, true) as i32,

        pp_unprotected_sqr_val: int_of(cfg, "pp_unprotected_sqr_val"@, true) as i32,
        pp_under_attacked_sqr_val: int_of(cfg, "pp_under_attacked_sqr_val"@, true) as i32,

        mp_protected_p_val: int_of(cfg, "mp_protected_p_val"@, true) as i32,
        mp_protected_n_val: int_of(cfg, "mp_protected_n_val"@, true) as i32,
        mp_protected_b_val: int_of(cfg, "mp_protected_b_val"@, true) as i32,
        mp_protected_r_val: int_of(cfg, "mp_protected_r_val"@, true) as i32,

        pp_protected_p_val: int_of(cfg, "pp_protected_p_val"@, true) as i32,
        pp_protected_n_val: int_of(cfg, "pp_protected_n_val"@, true) as i32,
        pp_protected_b_val: int_of(cfg, "pp_protected_b_val"@, true) as i32,
        pp_protected_r_val: int_of(cfg, "pp_protected_r_val"@, true) as i32,

        mp_np_protected_3rd_rank_sqr_val: int_of(cfg, "mp_np_protected_3rd_rank_sqr_val"@, true) as i32,
        mp_np_protected_4th_rank_sqr_val: int_of(cfg, "mp_np_protected_4th_rank_sqr_val"@, true) as i32,

        pp_np_protected_3rd_rank_sqr_val: int_of(cfg, "pp_np_protected_3rd_rank_sqr_val"@, true) as i32,
        pp_np_protected_4th_rank_sqr_val: int_of(cfg, "pp_np_protected_4th_rank_sqr_val"@, true) as i32,

        mp_n_mob_base_val: int_of(cfg, "mp_n_mob_base_val"@, true) as i32,
        mp_b_mob_base_val: int_of(cfg, "mp_b_mob_base_val"@, true) as i32,
        mp_r_mob_base_val: int_of(cfg, "mp_r_mob_base_val"@, true) as i32,
        mp_q_mob_base_val: int_of(cfg, "mp_q_mob_base_val"@, true) as i32,

        pp_n_mob_base_val: int_of(cfg, "pp_n_mob_base_val"@, true) as i32,
        pp_b_mob_base_val: int_of(cfg, "pp_b_mob_base_val"@, true) as i32,
        pp_r_mob_base_val: int_of(cfg, "pp_r_mob_base_val"@, true) as i32,
        pp_q_mob_base_val: int_of(cfg, "pp_q_mob_base_val"@, true) as i32,

        mp_n_weak_mob_base_val: int_of(cfg, "mp_n_weak_mob_base_val"@, true) as i32,
        mp_b_weak_mob_base_val: int_of(cfg, "mp_b_weak_mob_base_val"@, true) as i32,
        mp_r_weak_mob_base_val: int_of(cfg, "mp_r_weak_mob_base_val"@, true) as i32,
        mp_q_weak_mob_base_val: int_of(cfg, "mp_q_weak_mob_base_val"@, true) as i32,

        pp_n_weak_mob_base_val: int_of(cfg, "pp_n_weak_mob_base_val"@, true) as i32,
        pp_b_weak_mob_base_val: int_of(cfg, "pp_b_weak_mob_base_val"@, true) as i32,
        pp_r_weak_mob_base_val: int_of(cfg, "pp_r_weak_mob_base_val"@, true) as i32,
        pp_q_weak_mob_base_val: int_of(cfg, "pp_q_weak_mob_base_val"@, true) as i32,

        mp_n_stuck_val: int_of(cfg, "mp_n_stuck_val"@, true) as i32,
        mp_b_stuck_val: int_of(cfg, "mp_b_stuck_val"@, true) as i32,
        mp_r_stuck_val: int_of(cfg, "mp_r_stuck_val"@, true) as i32,
        mp_q_stuck_val: int_of(cfg, "mp_q_stuck_val"@, true) as i32,

        pp_n_stuck_val: int_of(cfg, "pp_n_stuck_val"@, true) as i32,
        pp_b_stuck_val: int_of(cfg, "pp_b_stuck_val"@, true) as i32,
        pp_r_stuck_val: int_of(cfg, "pp_r_stuck_val"@, true) as i32,
        pp_q_stuck_val: int_of(cfg, "pp_q_stuck_val"@, true) as i32,
        mp_k_mob_base_val: int_of(cfg, "mp_k_mob_base_val"@, true) as i32,
        mp_king_castled_val: int_of(cfg, "mp_king_castled_val"@, true) as i32,
        mp_king_near_open_file_val: int_of(cfg, "mp_king_near_open_file_val"@, true) as i32,
        mp_king_near_opponent_semi_open_file_val: int_of(cfg, "mp_king_near_opponent_semi_open_file_val"@, true) as i32,
        mp_king_near_own_semi_open_file_val: int_of(cfg, "mp_king_near_own_semi_open_file_val"@, true) as i32,
        mp_king_on_open_file_val: int_of(cfg, "mp_king_on_open_file_val"@, true) as i32,
        mp_king_on_opponent_semi_open_file_val: int_of(cfg, "mp_king_on_opponent_semi_open_file_val"@, true) as i32,
        mp_king_on_own_semi_open_file_val: int_of(cfg, "mp_king_on_own_semi_open_file_val"@, true) as i32,
        pp_k_mob_base_val: int_of(cfg, "pp_k_mob_base_val"@, true) as i32,
        pp_king_castled_val: int_of(cfg, "pp_king_castled_val"@, true) as i32,
        rmp_b_mob_base_val: int_of(cfg, "rmp_b_mob_base_val"@, true) as i32,
        rmp_k_mob_base_val: int_of(cfg, "rmp_k_mob_base_val"@, true) as i32,
        rmp_king_castled_val: int_of(cfg, "rmp_king_castled_val"@, true) as i32,
        rmp_n_mob_base_val: int_of(cfg, "rmp_n_mob_base_val"@, true) as i32,
        rmp_q_mob_base_val: int_of(cfg, "rmp_q_mob_base_val"@, true) as i32,
        rmp_r_mob_base_val: int_of(cfg, "rmp_r_mob_base_val"@, true) as i32,
        rpp_b_mob_base_val: int_of(cfg, "rpp_b_mob_base_val"@, true) as i32,
        rpp_k_mob_base_val: int_of(cfg, "rpp_k_mob_base_val"@, true) as i32,
        rpp_king_castled_val: int_of(cfg, "rpp_king_castled_val"@, true) as i32,
        rpp_n_mob_base_val: int_of(cfg, "rpp_n_mob_base_val"@, true) as i32,
        rpp_q_mob_base_val: int_of(cfg, "rpp_q_mob_base_val"@, true) as i32,
        rpp_r_mob_base_val: int_of(cfg, "rpp_r_mob_base_val"@, true) as i32,

        mp_tempo_val: int_of(cfg, "mp_tempo_val"@, true) as i32,
        pp_tempo_val: int_of(cfg, "pp_tempo_val"@, true) as i32,

        mp_pawn_essential_val: int_of(cfg, "mp_pawn_essential_val"@, true) as i32,
        pp_pawn_essential_val: int_of(cfg, "pp_pawn_essential_val"@, true) as i32,

        mp_different_color_bishop_val: int_of(cfg, "mp_different_color_bishop_val"@, true) as i32,
        mp_different_color_bishop_with_rook_val: int_of(cfg, "mp_different_color_bishop_with_rook_val"@, true) as i32,

        pp_different_color_bishop_val: int_of(cfg, "pp_different_color_bishop_val"@, true) as i32,
        pp_different_color_bishop_with_rook_val: int_of(cfg, "pp_different_color_bishop_with_rook_val"@, true) as i32,

        mp_bishop_pair_val: int_of(cfg, "mp_bishop_pair_val"@, true) as i32,
        pp_bishop_pair_val: int_of(cfg, "pp_bishop_pair_val"@, true) as i32,
    }
}

impl EvalParams {
    pub fn default() -> (r: Self)
        ensures
            r == default_eval_params(),
    {
        EvalParams {
            q_val: 1000,
            r_val: 500,
            b_val: 350,
            n_val: 345,
            p_val: 100,

            mp_q_val: 0,
            mp_r_val: 0,
            mp_b_val: 0,
            mp_n_val: 0,
            mp_p_val: 0,

            pp_q_val: 0,
            pp_r_val: 0,
            pp_b_val: 0,
            pp_n_val: 0,
            pp_p_val: 0,

            mp_p_sqr_base_val: 0,
            mp_p_eg_sqr_base_val: 0,
            mp_n_sqr_base_val: 7,
            mp_b_sqr_base_val: 2,
            mp_r_sqr_base_val: 0,
            mp_k_sqr_base_val: 0,
            mp_k_eg_sqr_base_val: 0,

            pp_p_sqr_base_val: 0,
            pp_p_eg_sqr_base_val: 0,
            pp_n_sqr_base_val: 0,
            pp_b_sqr_base_val: 0,
            pp_r_sqr_base_val: 0,
            pp_k_sqr_base_val: 0,
            pp_k_eg_sqr_base_val: 0,

            mp_isolated_pawn_val: -10i32,
            mp_doubled_pawn_val: 8,
            mp_behind_pawn_val: 0,
            rmp_isolated_pawn_val: -10i32,
            rmp_doubled_pawn_val: 8,
            rmp_behind_pawn_val: 0,

            pp_isolated_pawn_val: 0,
            pp_doubled_pawn_val: 0,
            pp_behind_pawn_val: 0,
            rpp_isolated_pawn_val: 0,
            rpp_doubled_pawn_val: 0,
            rpp_behind_pawn_val: 0,

            mp_passer_base_val: 0,
            mp_passer_rank_val: 0,
            mp_candidate_passer_base_val: 0,
            mp_candidate_passer_rank_val: 0,
            rmp_passer_base_val: 0,
            rmp_passer_rank_val: 24,
            rmp_candidate_passer_base_val: 0,
            rmp_candidate_passer_rank_val: 0,

            pp_passer_base_val: 0,
            pp_passer_rank_val: 0,
            pp_candidate_passer_base_val: 0,
            pp_candidate_passer_rank_val: 0,
            rpp_passer_base_val: 0,
            rpp_passer_rank_val: 0,
            rpp_candidate_passer_base_val: 0,
            rpp_candidate_passer_rank_val: 8,

            mp_pk_attack_val: 0,
            mp_nk_attack_val: 0,
            mp_bk_attack_val: 0,
            mp_rk_attack_val: 56,
            mp_qk_attack_val: 48,

            pp_pk_attack_val: 0,
            pp_nk_attack_val: 0,
            pp_bk_attack_val: 0,
            pp_rk_attack_val: 0,
            pp_qk_attack_val: 0,

            mp_king_pawn_protection_val: 0,
            mp_king_front_open_val: 0,
            mp_king_front_total_open_val: 0,
            mp_king_front_enery_pawn_cover_val: 0,
            mp_king_side_file_open_val: 0,
            mp_king_near_side_file_open_val: 0,

            pp_king_pawn_protection_val: 0,
            pp_king_front_open_val: 0,
            pp_king_front_total_open_val: 0,
            pp_king_front_enery_pawn_cover_val: 0,
            pp_king_side_file_open_val: 0,
            pp_king_near_side_file_open_val: 0,

            mp_king_cas_rights_val: 0,
            rmp_king_cas_rights_val: 0,
            pp_king_cas_rights_val: 0,
            rpp_king_cas_rights_val: 0,

            mp_rook_open_val: 16,
            mp_rook_semi_open_val: 48,

            pp_rook_open_val: 8,
            pp_rook_semi_open_val: 64,

            mp_pin_val: 0,
            mp_semi_pin_val: 0,

            pp_pin_val: 0,
            pp_semi_pin_val: 0,

            mp_unprotected_sqr_val: 0,
            mp_under_attacked_sqr_val: 0,

            pp_unprotected_sqr_val: 0,
            pp_under_attacked_sqr_val: 0,

            mp_protected_p_val: 16,
            mp_protected_n_val: 0,
            mp_protected_b_val: 0,
            mp_protected_r_val: 0,

            pp_protected_p_val: 0,
            pp_protected_n_val: 0,
            pp_protected_b_val: 0,
            pp_protected_r_val: 0,

            mp_np_protected_3rd_rank_sqr_val: 0,
            mp_np_protected_4th_rank_sqr_val: 0,

            pp_np_protected_3rd_rank_sqr_val: 0,
            pp_np_protected_4th_rank_sqr_val: 0,

            mp_n_mob_base_val: 6,
            mp_b_mob_base_val: 12,
            mp_r_mob_base_val: 0,
            mp_q_mob_base_val: 0,

            pp_n_mob_base_val: 0,
            pp_b_mob_base_val: 0,
            pp_r_mob_base_val: 0,
            pp_q_mob_base_val: 0,

            mp_n_weak_mob_base_val: 0,
            mp_b_weak_mob_base_val: 0,
            mp_r_weak_mob_base_val: 0,
            mp_q_weak_mob_base_val: 0,

            pp_n_weak_mob_base_val: 0,
            pp_b_weak_mob_base_val: 0,
            pp_r_weak_mob_base_val: 0,
            pp_q_weak_mob_base_val: 0,

            mp_n_stuck_val: 0,
            mp_b_stuck_val: 0,
            mp_r_stuck_val: 0,
            mp_q_stuck_val: 0,

            pp_n_stuck_val: 0,
            pp_b_stuck_val: 0,
            pp_r_stuck_val: 0,
            pp_q_stuck_val: 0,
            mp_k_mob_base_val: 0,
            mp_king_castled_val: 0,
            mp_king_near_open_file_val: 0,
            mp_king_near_opponent_semi_open_file_val: 0,
            mp_king_near_own_semi_open_file_val: 0,
            mp_king_on_open_file_val: 0,
            mp_king_on_opponent_semi_open_file_val: 0,
            mp_king_on_own_semi_open_file_val: 0,
            pp_k_mob_base_val: 0,
            pp_king_castled_val: 0,
            rmp_b_mob_base_val: 0,
            rmp_k_mob_base_val: 0,
            rmp_king_castled_val: 0,
            rmp_n_mob_base_val: 0,
            rmp_q_mob_base_val: 0,
            rmp_r_mob_base_val: 0,
            rpp_b_mob_base_val: 0,
            rpp_k_mob_base_val: 0,
            rpp_king_castled_val: 0,
            rpp_n_mob_base_val: 0,
            rpp_q_mob_base_val: 0,
            rpp_r_mob_base_val: 0,

            mp_tempo_val: 0,
            pp_tempo_val: 0,

            mp_pawn_essential_val: 0,
            pp_pawn_essential_val: 0,

            mp_different_color_bishop_val: 0,
            mp_different_color_bishop_with_rook_val: 0,

            pp_different_color_bishop_val: 0,
            pp_different_color_bishop_with_rook_val: 0,

            mp_bishop_pair_val: 0,
            pp_bishop_pair_val: 0,
        }
    }

    /// The parameters named in `config`, each read from the last pair with its name.
    #[verifier::rlimit(50)]
    pub fn from_config(config: &Vec<(String, String)>) -> (r: Self)
        requires
            eval_config_ok(config@),
        ensures
            r == eval_params_of(config@),
    {
        EvalParams {
            q_val: get_i32(config, "q_val"),
            r_val: get_i32(config, "r_val"),
            b_val: get_i32(config, "b_val"),
            n_val: get_i32(config, "n_val"),
            p_val: get_i32(config, "p_val"),

            mp_q_val: get_i32(config, "mp_q_val"),
            mp_r_val: get_i32(config, "mp_r_val"),
            mp_b_val: get_i32(config, "mp_b_val"),
            mp_n_val: get_i32(config, "mp_n_val"),
            mp_p_val: get_i32(config, "mp_p_val"),

            pp_q_val: get_i32(config, "pp_q_val"),
            pp_r_val: get_i32(config, "pp_r_val"),
            pp_b_val: get_i32(config, "pp_b_val"),
            pp_n_val: get_i32(config, "pp_n_val"),
            pp_p_val: get_i32(config, "pp_p_val"),

            mp_p_sqr_base_val: get_i32(config, "mp_p_sqr_base_val"),
            mp_p_eg_sqr_base_val: get_i32(config, "mp_p_eg_sqr_base_val"),
            mp_n_sqr_base_val: get_i32(config, "mp_n_sqr_base_val"),
            mp_b_sqr_base_val: get_i32(config, "mp_b_sqr_base_val"),
            mp_r_sqr_base_val: get_i32(config, "mp_r_sqr_base_val"),
            mp_k_sqr_base_val: get_i32(config, "mp_k_sqr_base_val"),
            mp_k_eg_sqr_base_val: get_i32(config, "mp_k_eg_sqr_base_val"),

            pp_p_sqr_base_val: get_i32(config, "pp_p_sqr_base_val"),
            pp_p_eg_sqr_base_val: get_i32(config, "pp_p_eg_sqr_base_val"),
            pp_n_sqr_base_val: get_i32(config, "pp_n_sqr_base_val"),
            pp_b_sqr_base_val: get_i32(config, "pp_b_sqr_base_val"),
            pp_r_sqr_base_val: get_i32(config, "pp_r_sqr_base_val"),
            pp_k_sqr_base_val: get_i32(config, "pp_k_sqr_base_val"),
            pp_k_eg_sqr_base_val: get_i32(config, "pp_k_eg_sqr_base_val"),

            mp_isolated_pawn_val: get_i32(config, "mp_isolated_pawn_val"),
            mp_doubled_pawn_val: get_i32(config, "mp_doubled_pawn_val"),
            mp_behind_pawn_val: get_i32(config, "mp_behind_pawn_val"),
            rmp_isolated_pawn_val: get_i32(config, "rmp_isolated_pawn_val"),
            rmp_doubled_pawn_val: get_i32(config, "rmp_doubled_pawn_val"),
            rmp_behind_pawn_val: get_i32(config, "rmp_behind_pawn_val"),

            pp_isolated_pawn_val: get_i32(config, "pp_isolated_pawn_val"),
            pp_doubled_pawn_val: get_i32(config, "pp_doubled_pawn_val"),
            pp_behind_pawn_val: get_i32(config, "pp_behind_pawn_val"),
            rpp_isolated_pawn_val: get_i32(config, "rpp_isolated_pawn_val"),
            rpp_doubled_pawn_val: get_i32(config, "rpp_doubled_pawn_val"),
            rpp_behind_pawn_val: get_i32(config, "rpp_behind_pawn_val"),

            mp_passer_base_val: get_i32(config, "mp_passer_base_val"),
            mp_passer_rank_val: get_i32(config, "mp_passer_rank_val"),
            mp_candidate_passer_base_val: get_i32(config, "mp_candidate_passer_base_val"),
            mp_candidate_passer_rank_val: get_i32(config, "mp_candidate_passer_rank_val"),
            rmp_passer_base_val: get_i32(config, "rmp_passer_base_val"),
            rmp_passer_rank_val: get_i32(config, "rmp_passer_rank_val"),
            rmp_candidate_passer_base_val: get_i32(config, "rmp_candidate_passer_base_val"),
            rmp_candidate_passer_rank_val: get_i32(config, "rmp_candidate_passer_rank_val"),

            pp_passer_base_val: get_i32(config, "pp_passer_base_val"),
            pp_passer_rank_val: get_i32(config, "pp_passer_rank_val"),
            pp_candidate_passer_base_val: get_i32(config, "pp_candidate_passer_base_val"),
            pp_candidate_passer_rank_val: get_i32(config, "pp_candidate_passer_rank_val"),
            rpp_passer_base_val: get_i32(config, "rpp_passer_base_val"),
            rpp_passer_rank_val: get_i32(config, "rpp_passer_rank_val"),
            rpp_candidate_passer_base_val: get_i32(config, "rpp_candidate_passer_base_val"),
            rpp_candidate_passer_rank_val: get_i32(config, "rpp_candidate_passer_rank_val"),

            mp_pk_attack_val: get_i32(config, "mp_pk_attack_val"),
            mp_nk_attack_val: get_i32(config, "mp_nk_attack_val"),
            mp_bk_attack_val: get_i32(config, "mp_bk_attack_val"),
            mp_rk_attack_val: get_i32(config, "mp_rk_attack_val"),
            mp_qk_attack_val: get_i32(config, "mp_qk_attack_val"),

            pp_pk_attack_val: get_i32(config, "pp_pk_attack_val"),
            pp_nk_attack_val: get_i32(config, "pp_nk_attack_val"),
            pp_bk_attack_val: get_i32(config, "pp_bk_attack_val"),
            pp_rk_attack_val: get_i32(config, "pp_rk_attack_val"),
            pp_qk_attack_val: get_i32(config, "pp_qk_attack_val"),

            mp_king_pawn_protection_val: get_i32(config, "mp_king_pawn_protection_val"),
            mp_king_front_open_val: get_i32(config, "mp_king_front_open_val"),
            mp_king_front_total_open_val: get_i32(config, "mp_king_front_total_open_val"),
            mp_king_front_enery_pawn_cover_val: get_i32(config, "mp_king_front_enery_pawn_cover_val"),
            mp_king_side_file_open_val: get_i32(config, "mp_king_side_file_open_val"),
            mp_king_near_side_file_open_val: get_i32(config, "mp_king_near_side_file_open_val"),

            pp_king_pawn_protection_val: get_i32(config, "pp_king_pawn_protection_val"),
            pp_king_front_open_val: get_i32(config, "pp_king_front_open_val"),
            pp_king_front_total_open_val: get_i32(config, "pp_king_front_total_open_val"),
            pp_king_front_enery_pawn_cover_val: get_i32(config, "pp_king_front_enery_pawn_cover_val"),
            pp_king_side_file_open_val: get_i32(config, "pp_king_side_file_open_val"),
            pp_king_near_side_file_open_val: get_i32(config, "pp_king_near_side_file_open_val"),

            mp_king_cas_rights_val: get_i32(config, "mp_king_cas_rights_val"),
            rmp_king_cas_rights_val: get_i32(config, "rmp_king_cas_rights_val"),
            pp_king_cas_rights_val: get_i32(config, "pp_king_cas_rights_val"),
            rpp_king_cas_rights_val: get_i32(config, "rpp_king_cas_rights_val"),

            mp_rook_open_val: get_i32(config, "mp_rook_open_val"),
            mp_rook_semi_open_val: get_i32(config, "mp_rook_semi_open_val"),

            pp_rook_open_val: get_i32(config, "pp_rook_open_val"),
            pp_rook_semi_open_val: get_i32(config, "pp_rook_semi_open_val"),

            mp_pin_val: get_i32(config, "mp_pin_val"),
            mp_semi_pin_val: get_i32(config, "mp_semi_pin_val"),

            pp_pin_val: get_i32(config, "pp_pin_val"),
            pp_semi_pin_val: get_i32(config, "pp_semi_pin_val"),

            mp_unprotected_sqr_val: get_i32(config, "mp_unprotected_sqr_val"),
            mp_under_attacked_sqr_val: get_i32(config, "mp_under_attacked_sqr_val"),

            pp_unprotected_sqr_val: get_i32(config, "pp_unprotected_sqr_val"),
            pp_under_attacked_sqr_val: get_i32(config, "pp_under_attacked_sqr_val"),

            mp_protected_p_val: get_i32(config, "mp_protected_p_val"),
            mp_protected_n_val: get_i32(config, "mp_protected_n_val"),
            mp_protected_b_val: get_i32(config, "mp_protected_b_val"),
            mp_protected_r_val: get_i32(config, "mp_protected_r_val"),

            pp_protected_p_val: get_i32(config, "pp_protected_p_val"),
            pp_protected_n_val: get_i32(config, "pp_protected_n_val"),
            pp_protected_b_val: get_i32(config, "pp_protected_b_val"),
            pp_protected_r_val: get_i32(config, "pp_protected_r_val"),

            mp_np_protected_3rd_rank_sqr_val: get_i32(config, "mp_np_protected_3rd_rank_sqr_val"),
            mp_np_protected_4th_rank_sqr_val: get_i32(config, "mp_np_protected_4th_rank_sqr_val"),

            pp_np_protected_3rd_rank_sqr_val: get_i32(config, "pp_np_protected_3rd_rank_sqr_val"),
            pp_np_protected_4th_rank_sqr_val: get_i32(config, "pp_np_protected_4th_rank_sqr_val"),

            mp_n_mob_base_val: get_i32(config, "mp_n_mob_base_val"),
            mp_b_mob_base_val: get_i32(config, "mp_b_mob_base_val"),
            mp_r_mob_base_val: get_i32(config, "mp_r_mob_base_val"),
            mp_q_mob_base_val: get_i32(config, "mp_q_mob_base_val"),

            pp_n_mob_base_val: get_i32(config, "pp_n_mob_base_val"),
            pp_b_mob_base_val: get_i32(config, "pp_b_mob_base_val"),
            pp_r_mob_base_val: get_i32(config, "pp_r_mob_base_val"),
            pp_q_mob_base_val: get_i32(config, "pp_q_mob_base_val"),

            mp_n_weak_mob_base_val: get_i32(config, "mp_n_weak_mob_base_val"),
            mp_b_weak_mob_base_val: get_i32(config, "mp_b_weak_mob_base_val"),
            mp_r_weak_mob_base_val: get_i32(config, "mp_r_weak_mob_base_val"),
            mp_q_weak_mob_base_val: get_i32(config, "mp_q_weak_mob_base_val"),

            pp_n_weak_mob_base_val: get_i32(config, "pp_n_weak_mob_base_val"),
            pp_b_weak_mob_base_val: get_i32(config, "pp_b_weak_mob_base_val"),
            pp_r_weak_mob_base_val: get_i32(config, "pp_r_weak_mob_base_val"),
            pp_q_weak_mob_base_val: get_i32(config, "pp_q_weak_mob_base_val"),

            mp_n_stuck_val: get_i32(config, "mp_n_stuck_val"),
            mp_b_stuck_val: get_i32(config, "mp_b_stuck_val"),
            mp_r_stuck_val: get_i32(config, "mp_r_stuck_val"),
            mp_q_stuck_val: get_i32(config, "mp_q_stuck_val"),

            pp_n_stuck_val: get_i32(config, "pp_n_stuck_val"),
            pp_b_stuck_val: get_i32(config, "pp_b_stuck_val"),
            pp_r_stuck_val: get_i32(config, "pp_r_stuck_val"),
            pp_q_stuck_val: get_i32(config, "pp_q_stuck_val"),
            mp_k_mob_base_val: get_i32(config, "mp_k_mob_base_val"),
            mp_king_castled_val: get_i32(config, "mp_king_castled_val"),
            mp_king_near_open_file_val: get_i32(config, "mp_king_near_open_file_val"),
            mp_king_near_opponent_semi_open_file_val: get_i32(config, "mp_king_near_opponent_semi_open_file_val"),
            mp_king_near_own_semi_open_file_val: get_i32(config, "mp_king_near_own_semi_open_file_val"),
            mp_king_on_open_file_val: get_i32(config, "mp_king_on_open_file_val"),
            mp_king_on_opponent_semi_open_file_val: get_i32(config, "mp_king_on_opponent_semi_open_file_val"),
            mp_king_on_own_semi_open_file_val: get_i32(config, "mp_king_on_own_semi_open_file_val"),
            pp_k_mob_base_val: get_i32(config, "pp_k_mob_base_val"),
            pp_king_castled_val: get_i32(config, "pp_king_castled_val"),
            rmp_b_mob_base_val: get_i32(config, "rmp_b_mob_base_val"),
            rmp_k_mob_base_val: get_i32(config, "rmp_k_mob_base_val"),
            rmp_king_castled_val: get_i32(config, "rmp_king_castled_val"),
            rmp_n_mob_base_val: get_i32(config, "rmp_n_mob_base_val"),
            rmp_q_mob_base_val: get_i32(config, "rmp_q_mob_base_val"),
            rmp_r_mob_base_val: get_i32(config, "rmp_r_mob_base_val"),
            rpp_b_mob_base_val: get_i32(config, "rpp_b_mob_base_val"),
            rpp_k_mob_base_val: get_i32(config, "rpp_k_mob_base_val"),
            rpp_king_castled_val: get_i32(config, "rpp_king_castled_val"),
            rpp_n_mob_base_val: get_i32(config, "rpp_n_mob_base_val"),
            rpp_q_mob_base_val: get_i32(config, "rpp_q_mob_base_val"),
            rpp_r_mob_base_val: get_i32(config, "rpp_r_mob_base_val"),

            mp_tempo_val: get_i32(config, "mp_tempo_val"),
            pp_tempo_val: get_i32(config, "pp_tempo_val"),

            mp_pawn_essential_val: get_i32(config, "mp_pawn_essential_val"),
            pp_pawn_essential_val: get_i32(config, "pp_pawn_essential_val"),

            mp_different_color_bishop_val: get_i32(config, "mp_different_color_bishop_val"),
            mp_different_color_bishop_with_rook_val: get_i32(config, "mp_different_color_bishop_with_rook_val"),

            pp_different_color_bishop_val: get_i32(config, "pp_different_color_bishop_val"),
            pp_different_color_bishop_with_rook_val: get_i32(config, "pp_different_color_bishop_with_rook_val"),

            mp_bishop_pair_val: get_i32(config, "mp_bishop_pair_val"),
            pp_bishop_pair_val: get_i32(config, "pp_bishop_pair_val"),
        }
    }
}


/// Whether `config` names every parameter of `EvalParams` with a value that fits its field.
pub fn is_eval_config_ok(config: &Vec<(String, String)>) -> (r: bool)
    ensures
        r == eval_config_ok(config@),
{
    if !has_i32(config, "q_val") {
        return false;
    }
    if !has_i32(config, "r_val") {
        return false;
    }
    if !has_i32(config, "b_val") {
        return false;
    }
    if !has_i32(config, "n_val") {
        return false;
    }
    if !has_i32(config, "p_val") {
        return false;
    }
    if !has_i32(config, "mp_q_val") {
        return false;
    }
    if !has_i32(config, "mp_r_val") {
        return false;
    }
    if !has_i32(config, "mp_b_val") {
        return false;
    }
    if !has_i32(config, "mp_n_val") {
        return false;
    }
    if !has_i32(config, "mp_p_val") {
        return false;
    }
    if !has_i32(config, "pp_q_val") {
        return false;
    }
    if !has_i32(config, "pp_r_val") {
        return false;
    }
    if !has_i32(config, "pp_b_val") {
        return false;
    }
    if !has_i32(config, "pp_n_val") {
        return false;
    }
    if !has_i32(config, "pp_p_val") {
        return false;
    }
    if !has_i32(config, "mp_p_sqr_base_val") {
        return false;
    }
    if !has_i32(config, "mp_p_eg_sqr_base_val") {
        return false;
    }
    if !has_i32(config, "mp_n_sqr_base_val") {
        return false;
    }
    if !has_i32(config, "mp_b_sqr_base_val") {
        return false;
    }
    if !has_i32(config, "mp_r_sqr_base_val") {
        return false;
    }
    if !has_i32(config, "mp_k_sqr_base_val") {
        return false;
    }
    if !has_i32(config, "mp_k_eg_sqr_base_val") {
        return false;
    }
    if !has_i32(config, "pp_p_sqr_base_val") {
        return false;
    }
    if !has_i32(config, "pp_p_eg_sqr_base_val") {
        return false;
    }
    if !has_i32(config, "pp_n_sqr_base_val") {
        return false;
    }
    if !has_i32(config, "pp_b_sqr_base_val") {
        return false;
    }
    if !has_i32(config, "pp_r_sqr_base_val") {
        return false;
    }
    if !has_i32(config, "pp_k_sqr_base_val") {
        return false;
    }
    if !has_i32(config, "pp_k_eg_sqr_base_val") {
        return false;
    }
    if !has_i32(config, "mp_isolated_pawn_val") {
        return false;
    }
    if !has_i32(config, "mp_doubled_pawn_val") {
        return false;
    }
    if !has_i32(config, "mp_behind_pawn_val") {
        return false;
    }
    if !has_i32(config, "rmp_isolated_pawn_val") {
        return false;
    }
    if !has_i32(config, "rmp_doubled_pawn_val") {
        return false;
    }
    if !has_i32(config, "rmp_behind_pawn_val") {
        return false;
    }
    if !has_i32(config, "pp_isolated_pawn_val") {
        return false;
    }
    if !has_i32(config, "pp_doubled_pawn_val") {
        return false;
    }
    if !has_i32(config, "pp_behind_pawn_val") {
        return false;
    }
    if !has_i32(config, "rpp_isolated_pawn_val") {
        return false;
    }
    if !has_i32(config, "rpp_doubled_pawn_val") {
        return false;
    }
    if !has_i32(config, "rpp_behind_pawn_val") {
        return false;
    }
    if !has_i32(config, "mp_passer_base_val") {
        return false;
    }
    if !has_i32(config, "mp_passer_rank_val") {
        return false;
    }
    if !has_i32(config, "mp_candidate_passer_base_val") {
        return false;
    }
    if !has_i32(config, "mp_candidate_passer_rank_val") {
        return false;
    }
    if !has_i32(config, "rmp_passer_base_val") {
        return false;
    }
    if !has_i32(config, "rmp_passer_rank_val") {
        return false;
    }
    if !has_i32(config, "rmp_candidate_passer_base_val") {
        return false;
    }
    if !has_i32(config, "rmp_candidate_passer_rank_val") {
        return false;
    }
    if !has_i32(config, "pp_passer_base_val") {
        return false;
    }
    if !has_i32(config, "pp_passer_rank_val") {
        return false;
    }
    if !has_i32(config, "pp_candidate_passer_base_val") {
        return false;
    }
    if !has_i32(config, "pp_candidate_passer_rank_val") {
        return false;
    }
    if !has_i32(config, "rpp_passer_base_val") {
        return false;
    }
    if !has_i32(config, "rpp_passer_rank_val") {
        return false;
    }
    if !has_i32(config, "rpp_candidate_passer_base_val") {
        return false;
    }
    if !has_i32(config, "rpp_candidate_passer_rank_val") {
        return false;
    }
    if !has_i32(config, "mp_pk_attack_val") {
        return false;
    }
    if !has_i32(config, "mp_nk_attack_val") {
        return false;
    }
    if !has_i32(config, "mp_bk_attack_val") {
        return false;
    }
    if !has_i32(config, "mp_rk_attack_val") {
        return false;
    }
    if !has_i32(config, "mp_qk_attack_val") {
        return false;
    }
    if !has_i32(config, "pp_pk_attack_val") {
        return false;
    }
    if !has_i32(config, "pp_nk_attack_val") {
        return false;
    }
    if !has_i32(config, "pp_bk_attack_val") {
        return false;
    }
    if !has_i32(config, "pp_rk_attack_val") {
        return false;
    }
    if !has_i32(config, "pp_qk_attack_val") {
        return false;
    }
    if !has_i32(config, "mp_king_pawn_protection_val") {
        return false;
    }
    if !has_i32(config, "mp_king_front_open_val") {
        return false;
    }
    if !has_i32(config, "mp_king_front_total_open_val") {
        return false;
    }
    if !has_i32(config, "mp_king_front_enery_pawn_cover_val") {
        return false;
    }
    if !has_i32(config, "mp_king_side_file_open_val") {
        return false;
    }
    if !has_i32(config, "mp_king_near_side_file_open_val") {
        return false;
    }
    if !has_i32(config, "pp_king_pawn_protection_val") {
        return false;
    }
    if !has_i32(config, "pp_king_front_open_val") {
        return false;
    }
    if !has_i32(config, "pp_king_front_total_open_val") {
        return false;
    }
    if !has_i32(config, "pp_king_front_enery_pawn_cover_val") {
        return false;
    }
    if !has_i32(config, "pp_king_side_file_open_val") {
        return false;
    }
    if !has_i32(config, "pp_king_near_side_file_open_val") {
        return false;
    }
    if !has_i32(config, "mp_king_cas_rights_val") {
        return false;
    }
    if !has_i32(config, "rmp_king_cas_rights_val") {
        return false;
    }
    if !has_i32(config, "pp_king_cas_rights_val") {
        return false;
    }
    if !has_i32(config, "rpp_king_cas_rights_val") {
        return false;
    }
    if !has_i32(config, "mp_rook_open_val") {
        return false;
    }
    if !has_i32(config, "mp_rook_semi_open_val") {
        return false;
    }
    if !has_i32(config, "pp_rook_open_val") {
        return false;
    }
    if !has_i32(config, "pp_rook_semi_open_val") {
        return false;
    }
    if !has_i32(config, "mp_pin_val") {
        return false;
    }
    if !has_i32(config, "mp_semi_pin_val") {
        return false;
    }
    if !has_i32(config, "pp_pin_val") {
        return false;
    }
    if !has_i32(config, "pp_semi_pin_val") {
        return false;
    }
    if !has_i32(config, "mp_unprotected_sqr_val") {
        return false;
    }
    if !has_i32(config, "mp_under_attacked_sqr_val") {
        return false;
    }
    if !has_i32(config, "pp_unprotected_sqr_val") {
        return false;
    }
    if !has_i32(config, "pp_under_attacked_sqr_val") {
        return false;
    }
    if !has_i32(config, "mp_protected_p_val") {
        return false;
    }
    if !has_i32(config, "mp_protected_n_val") {
        return false;
    }
    if !has_i32(config, "mp_protected_b_val") {
        return false;
    }
    if !has_i32(config, "mp_protected_r_val") {
        return false;
    }
    if !has_i32(config, "pp_protected_p_val") {
        return false;
    }
    if !has_i32(config, "pp_protected_n_val") {
        return false;
    }
    if !has_i32(config, "pp_protected_b_val") {
        return false;
    }
    if !has_i32(config, "pp_protected_r_val") {
        return false;
    }
    if !has_i32(config, "mp_np_protected_3rd_rank_sqr_val") {
        return false;
    }
    if !has_i32(config, "mp_np_protected_4th_rank_sqr_val") {
        return false;
    }
    if !has_i32(config, "pp_np_protected_3rd_rank_sqr_val") {
        return false;
    }
    if !has_i32(config, "pp_np_protected_4th_rank_sqr_val") {
        return false;
    }
    if !has_i32(config, "mp_n_mob_base_val") {
        return false;
    }
    if !has_i32(config, "mp_b_mob_base_val") {
        return false;
    }
    if !has_i32(config, "mp_r_mob_base_val") {
        return false;
    }
    if !has_i32(config, "mp_q_mob_base_val") {
        return false;
    }
    if !has_i32(config, "pp_n_mob_base_val") {
        return false;
    }
    if !has_i32(config, "pp_b_mob_base_val") {
        return false;
    }
    if !has_i32(config, "pp_r_mob_base_val") {
        return false;
    }
    if !has_i32(config, "pp_q_mob_base_val") {
        return false;
    }
    if !has_i32(config, "mp_n_weak_mob_base_val") {
        return false;
    }
    if !has_i32(config, "mp_b_weak_mob_base_val") {
        return false;
    }
    if !has_i32(config, "mp_r_weak_mob_base_val") {
        return false;
    }
    if !has_i32(config, "mp_q_weak_mob_base_val") {
        return false;
    }
    if !has_i32(config, "pp_n_weak_mob_base_val") {
        return false;
    }
    if !has_i32(config, "pp_b_weak_mob_base_val") {
        return false;
    }
    if !has_i32(config, "pp_r_weak_mob_base_val") {
        return false;
    }
    if !has_i32(config, "pp_q_weak_mob_base_val") {
        return false;
    }
    if !has_i32(config, "mp_n_stuck_val") {
        return false;
    }
    if !has_i32(config, "mp_b_stuck_val") {
        return false;
    }
    if !has_i32(config, "mp_r_stuck_val") {
        return false;
    }
    if !has_i32(config, "mp_q_stuck_val") {
        return false;
    }
    if !has_i32(config, "pp_n_stuck_val") {
        return false;
    }
    if !has_i32(config, "pp_b_stuck_val") {
        return false;
    }
    if !has_i32(config, "pp_r_stuck_val") {
        return false;
    }
    if !has_i32(config, "pp_q_stuck_val") {
        return false;
    }
    if !has_i32(config, "mp_k_mob_base_val") {
        return false;
    }
    if !has_i32(config, "mp_king_castled_val") {
        return false;
    }
    if !has_i32(config, "mp_king_near_open_file_val") {
        return false;
    }
    if !has_i32(config, "mp_king_near_opponent_semi_open_file_val") {
        return false;
    }
    if !has_i32(config, "mp_king_near_own_semi_open_file_val") {
        return false;
    }
    if !has_i32(config, "mp_king_on_open_file_val") {
        return false;
    }
    if !has_i32(config, "mp_king_on_opponent_semi_open_file_val") {
        return false;
    }
    if !has_i32(config, "mp_king_on_own_semi_open_file_val") {
        return false;
    }
    if !has_i32(config, "pp_k_mob_base_val") {
        return false;
    }
    if !has_i32(config, "pp_king_castled_val") {
        return false;
    }
    if !has_i32(config, "rmp_b_mob_base_val") {
        return false;
    }
    if !has_i32(config, "rmp_k_mob_base_val") {
        return false;
    }
    if !has_i32(config, "rmp_king_castled_val") {
        return false;
    }
    if !has_i32(config, "rmp_n_mob_base_val") {
        return false;
    }
    if !has_i32(config, "rmp_q_mob_base_val") {
        return false;
    }
    if !has_i32(config, "rmp_r_mob_base_val") {
        return false;
    }
    if !has_i32(config, "rpp_b_mob_base_val") {
        return false;
    }
    if !has_i32(config, "rpp_k_mob_base_val") {
        return false;
    }
    if !has_i32(config, "rpp_king_castled_val") {
        return false;
    }
    if !has_i32(config, "rpp_n_mob_base_val") {
        return false;
    }
    if !has_i32(config, "rpp_q_mob_base_val") {
        return false;
    }
    if !has_i32(config, "rpp_r_mob_base_val") {
        return false;
    }
    if !has_i32(config, "mp_tempo_val") {
        return false;
    }
    if !has_i32(config, "pp_tempo_val") {
        return false;
    }
    if !has_i32(config, "mp_pawn_essential_val") {
        return false;
    }
    if !has_i32(config, "pp_pawn_essential_val") {
        return false;
    }
    if !has_i32(config, "mp_different_color_bishop_val") {
        return false;
    }
    if !has_i32(config, "mp_different_color_bishop_with_rook_val") {
        return false;
    }
    if !has_i32(config, "pp_different_color_bishop_val") {
        return false;
    }
    if !has_i32(config, "pp_different_color_bishop_with_rook_val") {
        return false;
    }
    if !has_i32(config, "mp_bishop_pair_val") {
        return false;
    }
    if !has_i32(config, "pp_bishop_pair_val") {
        return false;
    }
    true
}

} // verus!
