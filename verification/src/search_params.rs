//! The tuning parameters of the search.
use vstd::prelude::*;
use crate::config::{has_int, int_of, get_i32, get_u8, get_usize, has_i32, has_uint};

verus! {

pub struct SearchParams {
    pub null_move_pruning_depth: u8,
    pub null_move_pruning_reduction: u8,

    pub internal_iterative_deepening_depth: u8,
    pub internal_iterative_deepening_reduction: u8,

    pub futility_pruning_depth: u8,
    pub futility_pruning_margin: i32,

    pub razoring_depth: u8,
    pub razoring_margin: i32,

    pub singular_extension_margin: i32,

    pub aspiration_window_size: i32,

    pub delta_margin: i32,

    pub butterfly_pruning_count: i32,

    pub sorting_capture_base_val: i32,

    pub sorting_mvv_lva_extra_base_val: i32,

    pub sorting_good_history_base_val: i32,
    pub sorting_normal_history_base_val: i32,
    pub sorting_weak_history_base_val: i32,

    pub sorting_checker_bonus: i32,

    pub sorting_counter_move_val: i32,
    pub sorting_killer_primary_val: i32,
    pub sorting_killer_secondary_val: i32,

    pub late_move_reductions_depth: u8,
    pub late_move_reductions_move_count: usize,
}

/// The values the engine uses when no parameter file is given.
pub open spec fn default_search_params() -> SearchParams {
    SearchParams {
        null_move_pruning_depth: 6,
        null_move_pruning_reduction: 2,

        internal_iterative_deepening_depth: 7,
        internal_iterative_deepening_reduction: 2,

        futility_pruning_depth: 7,
        futility_pruning_margin: 85,

        razoring_depth: 2,
        razoring_margin: 524,

        singular_extension_margin: 132,

        aspiration_window_size: 50,

        delta_margin: 240,

        butterfly_pruning_count: 16,

        sorting_capture_base_val: 1_000_000_000,

        sorting_mvv_lva_extra_base_val: 500,

        sorting_good_history_base_val: 100_000_000,
        sorting_normal_history_base_val: 10_000_000,
        sorting_weak_history_base_val: 1_000_000,

        sorting_checker_bonus: 50,

        sorting_counter_move_val: -20i32,
        sorting_killer_primary_val: -30i32,
        sorting_killer_secondary_val: -40i32,

        late_move_reductions_depth: 2,
        late_move_reductions_move_count: 1,
    }
}

/// The list of pairs names every parameter with an integer in the range of its type.
pub open spec fn search_config_ok(cfg: Seq<(String, String)>) -> bool {
    &&& has_int(cfg, "null_move_pruning_depth"@, 0, u8::MAX as int, false)
    &&& has_int(cfg, "null_move_pruning_reduction"@, 0, u8::MAX as int, false)
    &&& has_int(cfg, "internal_iterative_deepening_depth"@, 0, u8::MAX as int, false)
    &&& has_int(cfg, "internal_iterative_deepening_reduction"@, 0, u8::MAX as int, false)
    &&& has_int(cfg, "futility_pruning_depth"@, 0, u8::MAX as int, false)
    &&& has_int(cfg, "futility_pruning_margin"@, i32::MIN as int, i32::MAX as int, true)
    &&& has_int(cfg, "razoring_depth"@, 0, u8::MAX as int, false)
    &&& has_int(cfg, "razoring_margin"@, i32::MIN as int, i32::MAX as int, true)
    &&& has_int(cfg, "singular_extension_margin"@, i32::MIN as int, i32::MAX as int, true)
    &&& has_int(cfg, "aspiration_window_size"@, i32::MIN as int, i32::MAX as int, true)
    &&& has_int(cfg, "delta_margin"@, i32::MIN as int, i32::MAX as int, true)
    &&& has_int(cfg, "butterfly_pruning_count"@, i32::MIN as int, i32::MAX as int, true)
    &&& has_int(cfg, "sorting_capture_base_val"@, i32::MIN as int, i32::MAX as int, true)
    &&& has_int(cfg, "sorting_mvv_lva_extra_base_val"@, i32::MIN as int, i32::MAX as int, true)
    &&& has_int(cfg, "sorting_good_history_base_val"@, i32::MIN as int, i32::MAX as int, true)
    &&& has_int(cfg, "sorting_normal_history_base_val"@, i32::MIN as int, i32::MAX as int, true)
    &&& has_int(cfg, "sorting_weak_history_base_val"@, i32::MIN as int, i32::MAX as int, true)
    &&& has_int(cfg, "sorting_checker_bonus"@, i32::MIN as int, i32::MAX as int, true)
    &&& has_int(cfg, "sorting_counter_move_val"@, i32::MIN as int, i32::MAX as int, true)
    &&& has_int(cfg, "sorting_killer_primary_val"@, i32::MIN as int, i32::MAX as int, true)
    &&& has_int(cfg, "sorting_killer_secondary_val"@, i32::MIN as int, i32::MAX as int, true)
    &&& has_int(cfg, "late_move_reductions_depth"@, 0, u8::MAX as int, false)
    &&& has_int(cfg, "late_move_reductions_move_count"@, 0, usize::MAX as int, false)
}

/// The parameters that the list of pairs gives.
pub open spec fn search_params_of(cfg: Seq<(String, String)>) -> SearchParams {
    SearchParams {
        null_move_pruning_depth: int_of(cfg, "null_move_pruning_depth"@, false) as u8,
        null_move_pruning_reduction: int_of(cfg, "null_move_pruning_reduction"@, false) as u8,

        internal_iterative_deepening_depth: int_of(cfg, "internal_iterative_deepening_depth"@, false) as u8,
        internal_iterative_deepening_reduction: int_of(cfg, "internal_iterative_deepening_reduction"@, false) as u8,

        futility_pruning_depth: int_of(cfg, "futility_pruning_depth"@, false) as u8,
        futility_pruning_margin: int_of(cfg, "futility_pruning_margin"@, true) as i32,

        razoring_depth: int_of(cfg, "razoring_depth"@, false) as u8,
        razoring_margin: int_of(cfg, "razoring_margin"@, true) as i32,

        singular_extension_margin: int_of(cfg, "singular_extension_margin"@, true) as i32,

        aspiration_window_size: int_of(cfg, "aspiration_window_size"@, true) as i32,

        delta_margin: int_of(cfg, "delta_margin"@, true) as i32,

        butterfly_pruning_count: int_of(cfg, "butterfly_pruning_count"@, true) as i32,

        sorting_capture_base_val: int_of(cfg, "sorting_capture_base_val"@, true) as i32,

        sorting_mvv_lva_extra_base_val: int_of(cfg, "sorting_mvv_lva_extra_base_val"@, true) as i32,

        sorting_good_history_base_val: int_of(cfg, "sorting_good_history_base_val"@, true) as i32,
        sorting_normal_history_base_val: int_of(cfg, "sorting_normal_history_base_val"@, true) as i32,
        sorting_weak_history_base_val: int_of(cfg, "sorting_weak_history_base_val"@, true) as i32,

        sorting_checker_bonus: int_of(cfg, "sorting_checker_bonus"@, true) as i32,

        sorting_counter_move_val: int_of(cfg, "sorting_counter_move_val"@, true) as i32,
        sorting_killer_primary_val: int_of(cfg, "sorting_killer_primary_val"@, true) as i32,
        sorting_killer_secondary_val: int_of(cfg, "sorting_killer_secondary_val"@, true) as i32,

        late_move_reductions_depth: int_of(cfg, "late_move_reductions_depth"@, false) as u8,
        late_move_reductions_move_count: int_of(cfg, "late_move_reductions_move_count"@, false) as usize,
    }
}

impl SearchParams {
    pub fn default() -> (r: Self)
        ensures
            r == default_search_params(),
    {
        SearchParams {
            null_move_pruning_depth: 6,
            null_move_pruning_reduction: 2,

            internal_iterative_deepening_depth: 7,
            internal_iterative_deepening_reduction: 2,

            futility_pruning_depth: 7,
            futility_pruning_margin: 85,

            razoring_depth: 2,
            razoring_margin: 524,

            singular_extension_margin: 132,

            aspiration_window_size: 50,

            delta_margin: 240,

            butterfly_pruning_count: 16,

            sorting_capture_base_val: 1_000_000_000,

            sorting_mvv_lva_extra_base_val: 500,

            sorting_good_history_base_val: 100_000_000,
            sorting_normal_history_base_val: 10_000_000,
            sorting_weak_history_base_val: 1_000_000,

            sorting_checker_bonus: 50,

            sorting_counter_move_val: -20i32,
            sorting_killer_primary_val: -30i32,
            sorting_killer_secondary_val: -40i32,

            late_move_reductions_depth: 2,
            late_move_reductions_move_count: 1,
        }
    }

    /// The parameters named in `config`, each read from the last pair with its name.
    #[verifier::rlimit(50)]
    pub fn from_config(config: &Vec<(String, String)>) -> (r: Self)
        requires
            search_config_ok(config@),
        ensures
            r == search_params_of(config@),
    {
        SearchParams {
            null_move_pruning_depth: get_u8(config, "null_move_pruning_depth"),
            null_move_pruning_reduction: get_u8(config, "null_move_pruning_reduction"),

            internal_iterative_deepening_depth: get_u8(config, "internal_iterative_deepening_depth"),
            internal_iterative_deepening_reduction: get_u8(config, "internal_iterative_deepening_reduction"),

            futility_pruning_depth: get_u8(config, "futility_pruning_depth"),
            futility_pruning_margin: get_i32(config, "futility_pruning_margin"),

            razoring_depth: get_u8(config, "razoring_depth"),
            razoring_margin: get_i32(config, "razoring_margin"),

            singular_extension_margin: get_i32(config, "singular_extension_margin"),

            aspiration_window_size: get_i32(config, "aspiration_window_size"),

            delta_margin: get_i32(config, "delta_margin"),

            butterfly_pruning_count: get_i32(config, "butterfly_pruning_count"),

            sorting_capture_base_val: get_i32(config, "sorting_capture_base_val"),

            sorting_mvv_lva_extra_base_val: get_i32(config, "sorting_mvv_lva_extra_base_val"),

            sorting_good_history_base_val: get_i32(config, "sorting_good_history_base_val"),
            sorting_normal_history_base_val: get_i32(config, "sorting_normal_history_base_val"),
            sorting_weak_history_base_val: get_i32(config, "sorting_weak_history_base_val"),

            sorting_checker_bonus: get_i32(config, "sorting_checker_bonus"),

            sorting_counter_move_val: get_i32(config, "sorting_counter_move_val"),
            sorting_killer_primary_val: get_i32(config, "sorting_killer_primary_val"),
            sorting_killer_secondary_val: get_i32(config, "sorting_killer_secondary_val"),

            late_move_reductions_depth: get_u8(config, "late_move_reductions_depth"),
            late_move_reductions_move_count: get_usize(config, "late_move_reductions_move_count"),
        }
    }
}


/// Whether `config` names every parameter of `SearchParams` with a value that fits its field.
pub fn is_search_config_ok(config: &Vec<(String, String)>) -> (r: bool)
    ensures
        r == search_config_ok(config@),
{
    if !has_uint(config, "null_move_pruning_depth", u8::MAX as u128) {
        return false;
    }
    if !has_uint(config, "null_move_pruning_reduction", u8::MAX as u128) {
        return false;
    }
    if !has_uint(config, "internal_iterative_deepening_depth", u8::MAX as u128) {
        return false;
    }
    if !has_uint(config, "internal_iterative_deepening_reduction", u8::MAX as u128) {
        return false;
    }
    if !has_uint(config, "futility_pruning_depth", u8::MAX as u128) {
        return false;
    }
    if !has_i32(config, "futility_pruning_margin") {
        return false;
    }
    if !has_uint(config, "razoring_depth", u8::MAX as u128) {
        return false;
    }
    if !has_i32(config, "razoring_margin") {
        return false;
    }
    if !has_i32(config, "singular_extension_margin") {
        return false;
    }
    if !has_i32(config, "aspiration_window_size") {
        return false;
    }
    if !has_i32(config, "delta_margin") {
        return false;
    }
    if !has_i32(config, "butterfly_pruning_count") {
        return false;
    }
    if !has_i32(config, "sorting_capture_base_val") {
        return false;
    }
    if !has_i32(config, "sorting_mvv_lva_extra_base_val") {
        return false;
    }
    if !has_i32(config, "sorting_good_history_base_val") {
        return false;
    }
    if !has_i32(config, "sorting_normal_history_base_val") {
        return false;
    }
    if !has_i32(config, "sorting_weak_history_base_val") {
        return false;
    }
    if !has_i32(config, "sorting_checker_bonus") {
        return false;
    }
    if !has_i32(config, "sorting_counter_move_val") {
        return false;
    }
    if !has_i32(config, "sorting_killer_primary_val") {
        return false;
    }
    if !has_i32(config, "sorting_killer_secondary_val") {
        return false;
    }
    if !has_uint(config, "late_move_reductions_depth", u8::MAX as u128) {
        return false;
    }
    if !has_uint(config, "late_move_reductions_move_count", usize::MAX as u128) {
        return false;
    }
    true
}

} // verus!
