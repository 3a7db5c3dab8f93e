use foxsee::eval::{Evaluator, FeatureMap};
use foxsee::eval_params::EvalParams;
use foxsee::search_params::SearchParams;

fn pair(k: &str, v: &str) -> (String, String) {
    (k.to_string(), v.to_string())
}

#[test]
fn test_search_params_default() {
    let params = SearchParams::default();
    assert_eq!(6, params.null_move_pruning_depth);
    assert_eq!(524, params.razoring_margin);
    assert_eq!(-40, params.sorting_killer_secondary_val);
    assert_eq!(1, params.late_move_reductions_move_count);
}

#[test]
fn test_search_params_from_config() {
    let names_u8 = ["null_move_pruning_depth", "null_move_pruning_reduction", "internal_iterative_deepening_depth",
        "internal_iterative_deepening_reduction", "futility_pruning_depth", "razoring_depth", "late_move_reductions_depth"];
    let names_i32 = ["futility_pruning_margin", "razoring_margin", "singular_extension_margin", "aspiration_window_size",
        "delta_margin", "butterfly_pruning_count", "sorting_capture_base_val", "sorting_mvv_lva_extra_base_val",
        "sorting_good_history_base_val", "sorting_normal_history_base_val", "sorting_weak_history_base_val",
        "sorting_checker_bonus", "sorting_counter_move_val", "sorting_killer_primary_val", "sorting_killer_secondary_val"];
    let mut config = Vec::new();
    for n in names_u8.iter() {
        config.push(pair(n, "3"));
    }
    for n in names_i32.iter() {
        config.push(pair(n, "-7"));
    }
    config.push(pair("late_move_reductions_move_count", "+12"));
    // a later pair with the same name wins
    config.push(pair("razoring_margin", "600"));

    let params = SearchParams::from_config(&config);
    assert_eq!(3, params.null_move_pruning_depth);
    assert_eq!(3, params.late_move_reductions_depth);
    assert_eq!(-7, params.delta_margin);
    assert_eq!(600, params.razoring_margin);
    assert_eq!(12, params.late_move_reductions_move_count);
}

#[test]
fn test_eval_params_default() {
    let params = EvalParams::default();
    assert_eq!(1000, params.q_val);
    assert_eq!(500, params.r_val);
    assert_eq!(350, params.b_val);
    assert_eq!(345, params.n_val);
    assert_eq!(100, params.p_val);
}

#[test]
fn test_val_of() {
    let evaluator = Evaluator::new();
    assert_eq!(0, evaluator.val_of(0));
    assert_eq!(foxsee::eval::MATE_VAL, evaluator.val_of(foxsee::def::WK));
    assert_eq!(1000, evaluator.val_of(foxsee::def::BQ));
    assert_eq!(100, evaluator.val_of(foxsee::def::WP));
    assert_eq!(0, evaluator.val_of(3));
}

#[test]
fn test_feature_map_empty() {
    let a = FeatureMap::empty();
    assert_eq!(0, a.passer_count);
    assert_eq!(0, a.q_stuck_count);
}

fn eval_param_names() -> Vec<&'static str> {
    vec![
        "q_val",
        "r_val",
        "b_val",
        "n_val",
        "p_val",
        "mp_q_val",
        "mp_r_val",
        "mp_b_val",
        "mp_n_val",
        "mp_p_val",
        "pp_q_val",
        "pp_r_val",
        "pp_b_val",
        "pp_n_val",
        "pp_p_val",
        "mp_p_sqr_base_val",
        "mp_p_eg_sqr_base_val",
        "mp_n_sqr_base_val",
        "mp_b_sqr_base_val",
        "mp_r_sqr_base_val",
        "mp_k_sqr_base_val",
        "mp_k_eg_sqr_base_val",
        "pp_p_sqr_base_val",
        "pp_p_eg_sqr_base_val",
        "pp_n_sqr_base_val",
        "pp_b_sqr_base_val",
        "pp_r_sqr_base_val",
        "pp_k_sqr_base_val",
        "pp_k_eg_sqr_base_val",
        "mp_isolated_pawn_val",
        "mp_doubled_pawn_val",
        "mp_behind_pawn_val",
        "rmp_isolated_pawn_val",
        "rmp_doubled_pawn_val",
        "rmp_behind_pawn_val",
        "pp_isolated_pawn_val",
        "pp_doubled_pawn_val",
        "pp_behind_pawn_val",
        "rpp_isolated_pawn_val",
        "rpp_doubled_pawn_val",
        "rpp_behind_pawn_val",
        "mp_passer_base_val",
        "mp_passer_rank_val",
        "mp_candidate_passer_base_val",
        "mp_candidate_passer_rank_val",
        "rmp_passer_base_val",
        "rmp_passer_rank_val",
        "rmp_candidate_passer_base_val",
        "rmp_candidate_passer_rank_val",
        "pp_passer_base_val",
        "pp_passer_rank_val",
        "pp_candidate_passer_base_val",
        "pp_candidate_passer_rank_val",
        "rpp_passer_base_val",
        "rpp_passer_rank_val",
        "rpp_candidate_passer_base_val",
        "rpp_candidate_passer_rank_val",
        "mp_pk_attack_val",
        "mp_nk_attack_val",
        "mp_bk_attack_val",
        "mp_rk_attack_val",
        "mp_qk_attack_val",
        "pp_pk_attack_val",
        "pp_nk_attack_val",
        "pp_bk_attack_val",
        "pp_rk_attack_val",
        "pp_qk_attack_val",
        "mp_king_pawn_protection_val",
        "mp_king_front_open_val",
        "mp_king_front_total_open_val",
        "mp_king_front_enery_pawn_cover_val",
        "mp_king_side_file_open_val",
        "mp_king_near_side_file_open_val",
        "pp_king_pawn_protection_val",
        "pp_king_front_open_val",
        "pp_king_front_total_open_val",
        "pp_king_front_enery_pawn_cover_val",
        "pp_king_side_file_open_val",
        "pp_king_near_side_file_open_val",
        "mp_king_cas_rights_val",
        "rmp_king_cas_rights_val",
        "pp_king_cas_rights_val",
        "rpp_king_cas_rights_val",
        "mp_rook_open_val",
        "mp_rook_semi_open_val",
        "pp_rook_open_val",
        "pp_rook_semi_open_val",
        "mp_pin_val",
        "mp_semi_pin_val",
        "pp_pin_val",
        "pp_semi_pin_val",
        "mp_unprotected_sqr_val",
        "mp_under_attacked_sqr_val",
        "pp_unprotected_sqr_val",
        "pp_under_attacked_sqr_val",
        "mp_protected_p_val",
        "mp_protected_n_val",
        "mp_protected_b_val",
        "mp_protected_r_val",
        "pp_protected_p_val",
        "pp_protected_n_val",
        "pp_protected_b_val",
        "pp_protected_r_val",
        "mp_np_protected_3rd_rank_sqr_val",
        "mp_np_protected_4th_rank_sqr_val",
        "pp_np_protected_3rd_rank_sqr_val",
        "pp_np_protected_4th_rank_sqr_val",
        "mp_n_mob_base_val",
        "mp_b_mob_base_val",
        "mp_r_mob_base_val",
        "mp_q_mob_base_val",
        "pp_n_mob_base_val",
        "pp_b_mob_base_val",
        "pp_r_mob_base_val",
        "pp_q_mob_base_val",
        "mp_n_weak_mob_base_val",
        "mp_b_weak_mob_base_val",
        "mp_r_weak_mob_base_val",
        "mp_q_weak_mob_base_val",
        "pp_n_weak_mob_base_val",
        "pp_b_weak_mob_base_val",
        "pp_r_weak_mob_base_val",
        "pp_q_weak_mob_base_val",
        "mp_n_stuck_val",
        "mp_b_stuck_val",
        "mp_r_stuck_val",
        "mp_q_stuck_val",
        "pp_n_stuck_val",
        "pp_b_stuck_val",
        "pp_r_stuck_val",
        "pp_q_stuck_val",
        "mp_k_mob_base_val",
        "mp_king_castled_val",
        "mp_king_near_open_file_val",
        "mp_king_near_opponent_semi_open_file_val",
        "mp_king_near_own_semi_open_file_val",
        "mp_king_on_open_file_val",
        "mp_king_on_opponent_semi_open_file_val",
        "mp_king_on_own_semi_open_file_val",
        "pp_k_mob_base_val",
        "pp_king_castled_val",
        "rmp_b_mob_base_val",
        "rmp_k_mob_base_val",
        "rmp_king_castled_val",
        "rmp_n_mob_base_val",
        "rmp_q_mob_base_val",
        "rmp_r_mob_base_val",
        "rpp_b_mob_base_val",
        "rpp_k_mob_base_val",
        "rpp_king_castled_val",
        "rpp_n_mob_base_val",
        "rpp_q_mob_base_val",
        "rpp_r_mob_base_val",
        "mp_tempo_val",
        "pp_tempo_val",
        "mp_pawn_essential_val",
        "pp_pawn_essential_val",
        "mp_different_color_bishop_val",
        "mp_different_color_bishop_with_rook_val",
        "pp_different_color_bishop_val",
        "pp_different_color_bishop_with_rook_val",
        "mp_bishop_pair_val",
        "pp_bishop_pair_val",
    ]
}

#[test]
fn test_eval_config_check() {
    let mut config = Vec::new();
    for (k, n) in eval_param_names().iter().enumerate() {
        config.push(pair(n, &format!("{}", k as i32 - 70)));
    }
    assert!(foxsee::eval_params::is_eval_config_ok(&config));
    let params = EvalParams::from_config(&config);
    assert_eq!(-70, params.q_val);
    assert_eq!(-69, params.r_val);

    // a value outside i32, a missing name, and a malformed number are refused
    let mut too_big = config.clone();
    too_big.push(pair("q_val", "2147483648"));
    assert!(!foxsee::eval_params::is_eval_config_ok(&too_big));
    let mut lowest = config.clone();
    lowest.push(pair("q_val", "-2147483648"));
    assert!(foxsee::eval_params::is_eval_config_ok(&lowest));
    assert_eq!(i32::MIN, EvalParams::from_config(&lowest).q_val);
    let mut bad = config.clone();
    bad.push(pair("q_val", "-+5"));
    assert!(!foxsee::eval_params::is_eval_config_ok(&bad));
    let missing: Vec<(String, String)> = config[1..].to_vec();
    assert!(!foxsee::eval_params::is_eval_config_ok(&missing));
}

#[test]
fn test_search_config_check() {
    let names_u8 = ["null_move_pruning_depth", "null_move_pruning_reduction", "internal_iterative_deepening_depth",
        "internal_iterative_deepening_reduction", "futility_pruning_depth", "razoring_depth", "late_move_reductions_depth"];
    let names_i32 = ["futility_pruning_margin", "razoring_margin", "singular_extension_margin", "aspiration_window_size",
        "delta_margin", "butterfly_pruning_count", "sorting_capture_base_val", "sorting_mvv_lva_extra_base_val",
        "sorting_good_history_base_val", "sorting_normal_history_base_val", "sorting_weak_history_base_val",
        "sorting_checker_bonus", "sorting_counter_move_val", "sorting_killer_primary_val", "sorting_killer_secondary_val"];
    let mut config = Vec::new();
    for n in names_u8.iter() {
        config.push(pair(n, "255"));
    }
    for n in names_i32.iter() {
        config.push(pair(n, "-7"));
    }
    config.push(pair("late_move_reductions_move_count", "12"));
    assert!(foxsee::search_params::is_search_config_ok(&config));

    let mut over = config.clone();
    over.push(pair("razoring_depth", "256"));
    assert!(!foxsee::search_params::is_search_config_ok(&over));
    let mut negative = config.clone();
    negative.push(pair("razoring_depth", "-1"));
    assert!(!foxsee::search_params::is_search_config_ok(&negative));
}
