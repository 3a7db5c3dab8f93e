//! The search engine's state and what the search is built from: the move-path enumeration
//! (perft) that checks the move generator against known node counts, the killer, history
//! and butterfly tables, static exchange evaluation, the transposition-table access by
//! position key, and the retrieval of the principal variation.
use vstd::prelude::*;
use crate::bitmask::BitMask;
use crate::def;
use crate::eval::Evaluator;
use crate::eval_params::{EvalParams, default_eval_params};
use crate::hashtable::{DepthPreferredHashTable, LookupResult, lookup, stored};
use crate::zob_keys::{ZobKeys, CASTLING_RIGHTS_COMB_SIZE};
use crate::eval::TERM_VAL;
use crate::mov_table::{self, can_probe, in_check, reg_movs, written, smallest_attacker};
use crate::eval::value_of;
use crate::search_params::{SearchParams, default_search_params};
use crate::state::{State, StateModel, keys_ok, do_mov_model, can_do_mov, can_restore, lemma_undo_mov_restores};
use crate::bitmask::index_masks_ok;
use crate::util::{mov_from, mov_to, mov_tp, mov_promo};
use crate::clock::SearchClock;
use crate::eval::{MATE_VAL, bounded_eval};
use crate::hashtable::{TableEntry, HASH_TYPE_ALPHA, HASH_TYPE_BETA, HASH_TYPE_EXACT};
use crate::mov_count::lemma_mov_lists_fit;
use crate::time_control::TimeCapacity;

verus! {

pub const PV_TRACK_LENGTH: usize = 128;

pub const WINNING_EXCHANGE: i32 = 20;
pub const EQUAL_EXCHANGE: i32 = -20;

/// What a position needs for the move generator and `do_mov`: a key table, right masks,
/// piece codes on the squares, and kings and the en-passant square on the board.
pub open spec fn position_ok(m: StateModel, keys: Seq<Vec<u64>>, bm: BitMask) -> bool {
    &&& keys_ok(keys)
    &&& index_masks_ok(bm.index_masks)
    &&& forall|i: int| 0 <= i < 64 ==> #[trigger] def::is_square_code(m.squares[i])
    &&& can_probe(m, bm)
}

/// A move captures a king.
pub open spec fn takes_king(m: StateModel, mov: u32) -> bool {
    def::kind_of(m.squares[mov_to(mov) as int]) == def::KIND_K
}

/// The moves of a list up to its first empty entry.
pub open spec fn until_empty(movs: Seq<u32>) -> Seq<u32>
    decreases movs.len(),
{
    if movs.len() == 0 || movs[0] == 0 { Seq::empty() } else { seq![movs[0]] + until_empty(movs.drop_first()) }
}

/// The position after a listed move.
pub open spec fn after(m: StateModel, keys: Seq<Vec<u64>>, mov: u32) -> StateModel {
    do_mov_model(m, keys, mov_from(mov) as int, mov_to(mov) as int, mov_tp(mov), mov_promo(mov))
}

/// The number of move paths of length `depth` from `m` that never leave a king attacked:
/// 0 when the side that just moved is in check, 1 at depth 0, 0 when a move takes a king,
/// and otherwise the sum over the generated moves.
pub open spec fn perft_count(m: StateModel, keys: Seq<Vec<u64>>, bm: BitMask, depth: nat) -> int
    decreases depth, 0nat,
{
    if in_check(m, bm, def::opposite(m.player)) {
        0
    } else if depth == 0 {
        1
    } else {
        let movs = until_empty(reg_movs(m, bm));
        if exists|i: int| 0 <= i < movs.len() && #[trigger] takes_king(m, movs[i]) {
            0
        } else {
            perft_sum(m, keys, bm, movs, (depth - 1) as nat)
        }
    }
}

/// The sum of the counts after each of `movs`, one level less deep.
pub open spec fn perft_sum(m: StateModel, keys: Seq<Vec<u64>>, bm: BitMask, movs: Seq<u32>, depth: nat) -> int
    decreases depth, movs.len(),
{
    if movs.len() == 0 {
        0
    } else {
        perft_count(after(m, keys, movs[0]), keys, bm, depth) + perft_sum(m, keys, bm, movs.drop_first(), depth)
    }
}


/// What `perft` needs of a position to enumerate `depth` levels from it: at every position
/// reached the move list fits, and each listed move up to the first that takes a king can
/// be played and taken back.
pub open spec fn perft_ok(m: StateModel, keys: Seq<Vec<u64>>, bm: BitMask, depth: nat) -> bool
    decreases depth, 0nat,
{
    &&& position_ok(m, keys, bm)
    &&& (!in_check(m, bm, def::opposite(m.player)) && depth > 0) ==> {
        &&& movs_ok(m, keys, bm, until_empty(reg_movs(m, bm)), (depth - 1) as nat)
        &&& perft_sum(m, keys, bm, until_empty(reg_movs(m, bm)).subrange(0,
                king_free_len(m, until_empty(reg_movs(m, bm))) as int), (depth - 1) as nat) <= usize::MAX
    }
}

/// The number of moves of the list before the first that takes a king.
pub open spec fn king_free_len(m: StateModel, movs: Seq<u32>) -> nat
    decreases movs.len(),
{
    if movs.len() == 0 || takes_king(m, movs[0]) { 0 } else { 1 + king_free_len(m, movs.drop_first()) }
}

proof fn lemma_king_free_len(m: StateModel, movs: Seq<u32>)
    ensures
        king_free_len(m, movs) <= movs.len(),
        forall|k: int| 0 <= k < king_free_len(m, movs) ==> !#[trigger] takes_king(m, movs[k]),
        king_free_len(m, movs) < movs.len() ==> takes_king(m, movs[king_free_len(m, movs) as int]),
    decreases movs.len(),
{
    if movs.len() > 0 && !takes_king(m, movs[0]) {
        lemma_king_free_len(m, movs.drop_first());
        assert forall|k: int| 0 <= k < king_free_len(m, movs) implies !#[trigger] takes_king(m, movs[k]) by {
            if k > 0 {
                assert(movs[k] == movs.drop_first()[k - 1]);
            }
        }
        if king_free_len(m, movs) < movs.len() {
            assert(movs[king_free_len(m, movs) as int] == movs.drop_first()[king_free_len(m, movs.drop_first()) as int]);
        }
    }
}

/// What `perft` needs of one listed move: its target is on the board, and unless it takes a
/// king it can be played and taken back and the position after it meets `perft_ok`.
pub open spec fn mov_cond(m: StateModel, keys: Seq<Vec<u64>>, bm: BitMask, mov: u32, depth: nat) -> bool {
    &&& mov_to(mov) < 64
    &&& !takes_king(m, mov) ==> {
        &&& can_do_mov(m, mov_from(mov) as int, mov_to(mov) as int, mov_tp(mov), mov_promo(mov))
        &&& can_restore(m, mov_from(mov) as int, mov_to(mov) as int, mov_tp(mov))
        &&& perft_ok(after(m, keys, mov), keys, bm, depth)
    }
}

proof fn lemma_movs_ok_from(m: StateModel, keys: Seq<Vec<u64>>, bm: BitMask, movs: Seq<u32>, depth: nat)
    requires
        forall|k: int| 0 <= k < movs.len() && k <= king_free_len(m, movs) ==> #[trigger] mov_cond(m, keys, bm, movs[k], depth),
    ensures
        movs_ok(m, keys, bm, movs, depth),
    decreases movs.len(),
{
    if movs.len() > 0 {
        assert(mov_cond(m, keys, bm, movs[0], depth));
        if !takes_king(m, movs[0]) {
            let rest = movs.drop_first();
            assert forall|k: int| 0 <= k < rest.len() && k <= king_free_len(m, rest) implies #[trigger] mov_cond(m, keys, bm, rest[k], depth) by {
                assert(rest[k] == movs[k + 1]);
                assert(mov_cond(m, keys, bm, movs[k + 1], depth));
            }
            lemma_movs_ok_from(m, keys, bm, rest, depth);
        }
    }
}

pub open spec fn movs_ok(m: StateModel, keys: Seq<Vec<u64>>, bm: BitMask, movs: Seq<u32>, depth: nat) -> bool
    decreases depth, movs.len(),
{
    if movs.len() == 0 {
        true
    } else {
        let mov = movs[0];
        &&& mov_to(mov) < 64
        &&& !takes_king(m, mov) ==> {
            &&& can_do_mov(m, mov_from(mov) as int, mov_to(mov) as int, mov_tp(mov), mov_promo(mov))
            &&& can_restore(m, mov_from(mov) as int, mov_to(mov) as int, mov_tp(mov))
            &&& perft_ok(after(m, keys, mov), keys, bm, depth)
            &&& movs_ok(m, keys, bm, movs.drop_first(), depth)
        }
    }
}

proof fn lemma_movs_ok_at(m: StateModel, keys: Seq<Vec<u64>>, bm: BitMask, movs: Seq<u32>, depth: nat, i: int)
    requires
        movs_ok(m, keys, bm, movs, depth),
        0 <= i < movs.len(),
        forall|k: int| 0 <= k < i ==> !#[trigger] takes_king(m, movs[k]),
    ensures
        mov_to(movs[i]) < 64,
        !takes_king(m, movs[i]) ==> {
            &&& can_do_mov(m, mov_from(movs[i]) as int, mov_to(movs[i]) as int, mov_tp(movs[i]), mov_promo(movs[i]))
            &&& can_restore(m, mov_from(movs[i]) as int, mov_to(movs[i]) as int, mov_tp(movs[i]))
            &&& perft_ok(after(m, keys, movs[i]), keys, bm, depth)
        },
    decreases i,
{
    if i > 0 {
        assert(!takes_king(m, movs[0]));
        assert forall|k: int| 0 <= k < i - 1 implies !#[trigger] takes_king(m, movs.drop_first()[k]) by {
            assert(movs.drop_first()[k] == movs[k + 1]);
        }
        lemma_movs_ok_at(m, keys, bm, movs.drop_first(), depth, i - 1);
    }
}

proof fn lemma_perft_nonneg(m: StateModel, keys: Seq<Vec<u64>>, bm: BitMask, depth: nat)
    ensures
        perft_count(m, keys, bm, depth) >= 0,
    decreases depth, 0nat,
{
    if !in_check(m, bm, def::opposite(m.player)) && depth > 0 {
        lemma_perft_sum_nonneg(m, keys, bm, until_empty(reg_movs(m, bm)), (depth - 1) as nat);
    }
}

proof fn lemma_perft_sum_nonneg(m: StateModel, keys: Seq<Vec<u64>>, bm: BitMask, movs: Seq<u32>, depth: nat)
    ensures
        perft_sum(m, keys, bm, movs, depth) >= 0,
    decreases depth, movs.len(),
{
    if movs.len() > 0 {
        lemma_perft_nonneg(after(m, keys, movs[0]), keys, bm, depth);
        lemma_perft_sum_nonneg(m, keys, bm, movs.drop_first(), depth);
    }
}

proof fn lemma_perft_sum_split(m: StateModel, keys: Seq<Vec<u64>>, bm: BitMask, a: Seq<u32>, b: Seq<u32>, depth: nat)
    ensures
        perft_sum(m, keys, bm, a + b, depth) == perft_sum(m, keys, bm, a, depth) + perft_sum(m, keys, bm, b, depth),
    decreases a.len(),
{
    if a.len() > 0 {
        assert((a + b).drop_first() =~= a.drop_first() + b);
        assert((a + b)[0] == a[0]);
        lemma_perft_sum_split(m, keys, bm, a.drop_first(), b, depth);
    } else {
        assert(a + b =~= b);
    }
}

/// The moves before the first empty entry are the listed ones, all non-empty, and an
/// empty entry follows them when the list is longer.
proof fn lemma_until_empty(movs: Seq<u32>)
    ensures
        until_empty(movs).len() <= movs.len(),
        forall|k: int| 0 <= k < until_empty(movs).len() ==> #[trigger] until_empty(movs)[k] == movs[k] && movs[k] != 0,
        until_empty(movs).len() < movs.len() ==> movs[until_empty(movs).len() as int] == 0,
    decreases movs.len(),
{
    if movs.len() > 0 && movs[0] != 0 {
        lemma_until_empty(movs.drop_first());
        let u = until_empty(movs);
        assert forall|k: int| 0 <= k < u.len() implies #[trigger] u[k] == movs[k] && movs[k] != 0 by {
            if k > 0 {
                assert(u[k] == until_empty(movs.drop_first())[k - 1]);
            }
        }
    }
}

/// A list followed by empty entries has the same moves before its first empty entry.
proof fn lemma_until_empty_padded(a: Seq<u32>, b: Seq<u32>)
    requires
        b.len() > 0 ==> b[0] == 0,
    ensures
        until_empty(a + b) == until_empty(a),
    decreases a.len(),
{
    if a.len() > 0 {
        assert((a + b).drop_first() =~= a.drop_first() + b);
        assert((a + b)[0] == a[0]);
        lemma_until_empty_padded(a.drop_first(), b);
    } else {
        assert(a + b =~= b);
    }
}

proof fn lemma_perft_sum_step(m: StateModel, keys: Seq<Vec<u64>>, bm: BitMask, u: Seq<u32>, d: nat, i: int)
    requires
        0 <= i < u.len(),
    ensures
        perft_sum(m, keys, bm, u.subrange(0, i + 1), d)
            == perft_sum(m, keys, bm, u.subrange(0, i), d) + perft_count(after(m, keys, u[i]), keys, bm, d),
        perft_sum(m, keys, bm, u.subrange(0, i + 1), d) <= perft_sum(m, keys, bm, u, d),
        perft_sum(m, keys, bm, u.subrange(0, i), d) >= 0,
        perft_count(after(m, keys, u[i]), keys, bm, d) >= 0,
{
    let pre = u.subrange(0, i);
    let one = seq![u[i]];
    assert(u.subrange(0, i + 1) =~= pre + one);
    lemma_perft_sum_split(m, keys, bm, pre, one, d);
    assert(one.drop_first() =~= Seq::<u32>::empty());
    assert(perft_sum(m, keys, bm, one.drop_first(), d) == 0);
    assert(one[0] == u[i]);
    assert(perft_sum(m, keys, bm, one, d) == perft_count(after(m, keys, u[i]), keys, bm, d));
    lemma_perft_sum_split(m, keys, bm, u.subrange(0, i + 1), u.subrange(i + 1, u.len() as int), d);
    assert(u.subrange(0, i + 1) + u.subrange(i + 1, u.len() as int) =~= u);
    lemma_perft_sum_nonneg(m, keys, bm, u.subrange(i + 1, u.len() as int), d);
    lemma_perft_nonneg(after(m, keys, u[i]), keys, bm, d);
    lemma_perft_sum_nonneg(m, keys, bm, pre, d);
}

/// What the search does not change: the evaluator, the parameters, the counts at the root
/// and the flag that the search was stopped.
pub open spec fn keeps_setup(before: SearchEngine, after: SearchEngine) -> bool {
    &&& after.evaluator == before.evaluator
    &&& after.params == before.params
    &&& after.root_full_mov_count == before.root_full_mov_count
    &&& after.root_half_mov_count == before.root_half_mov_count
    &&& after.aborted == before.aborted
    &&& after.null_mov_count == before.null_mov_count
    &&& after.infos == before.infos
}

pub struct SearchEngine {
    pub evaluator: Evaluator,
    pub depth_preferred_hash_table: DepthPreferredHashTable,
    pub primary_killer_table: [(u32, i32, u8); PV_TRACK_LENGTH],
    pub secondary_killer_table: [(u32, i32, u8); PV_TRACK_LENGTH],
    pub history_table: [[[i32; 64]; 64]; 2],
    pub butterfly_table: [[[i32; 64]; 64]; 2],
    pub counter_mov_table: [[[u32; 64]; 64]; 2],
    pub params: SearchParams,
    pub null_mov_count: u8,
    pub root_full_mov_count: u16,
    pub root_half_mov_count: u16,
    pub max_time_millis: u128,
    pub node_count: u64,
    pub seldepth: u8,
    pub has_one_legal_mov: bool,
    pub aborted: bool,
    pub infos: Vec<SearchInfo>,
}

impl SearchEngine {
    /// An engine with default parameters and an empty hash table of `hash_size` entries.
    pub fn new(hash_size: usize) -> (r: Self)
        requires
            hash_size >= 1,
        ensures
            r.depth_preferred_hash_table.wf(),
            r.depth_preferred_hash_table.entries().len() == hash_size,
            r.depth_preferred_hash_table.utilization() == 0,
            forall|i: int| 0 <= i < r.depth_preferred_hash_table.entries().len()
                ==> #[trigger] r.depth_preferred_hash_table.entries()[i].is_empty(),
            r.params == default_search_params(),
            r.evaluator.params == default_eval_params(),
            forall|i: int| 0 <= i < PV_TRACK_LENGTH ==> #[trigger] r.primary_killer_table[i] == (0u32, 0i32, 0u8),
            forall|i: int| 0 <= i < PV_TRACK_LENGTH ==> #[trigger] r.secondary_killer_table[i] == (0u32, 0i32, 0u8),
            forall|p: int, f: int, t: int| 0 <= p < 2 && 0 <= f < 64 && 0 <= t < 64
                ==> #[trigger] r.history_table[p][f][t] == 0,
            forall|p: int, f: int, t: int| 0 <= p < 2 && 0 <= f < 64 && 0 <= t < 64
                ==> #[trigger] r.butterfly_table[p][f][t] == 1,
            forall|p: int, f: int, t: int| 0 <= p < 2 && 0 <= f < 64 && 0 <= t < 64
                ==> #[trigger] r.counter_mov_table[p][f][t] == 0,
            r.null_mov_count == 0,
            r.root_full_mov_count == 0,
            r.root_half_mov_count == 0,
            r.max_time_millis == 0,
            r.node_count == 0,
            r.seldepth == 0,
            !r.has_one_legal_mov,
            !r.aborted,
    {
        SearchEngine {
            evaluator: Evaluator::new(),
            depth_preferred_hash_table: DepthPreferredHashTable::new(hash_size),
            primary_killer_table: [(0, 0, 0); PV_TRACK_LENGTH],
            secondary_killer_table: [(0, 0, 0); PV_TRACK_LENGTH],
            history_table: [[[0; 64]; 64]; 2],
            butterfly_table: [[[1; 64]; 64]; 2],
            counter_mov_table: [[[0; 64]; 64]; 2],
            params: SearchParams::default(),
            null_mov_count: 0,
            root_full_mov_count: 0,
            root_half_mov_count: 0,
            max_time_millis: 0,
            node_count: 0,
            seldepth: 0,
            has_one_legal_mov: false,
            aborted: false,
            infos: Vec::new(),
        }
    }

    /// Replaces the search and evaluation parameters.
    pub fn set_params(&mut self, params: SearchParams, eval_params: EvalParams)
        ensures
            final(self).params == params,
            final(self).evaluator.params == eval_params,
            final(self).depth_preferred_hash_table == old(self).depth_preferred_hash_table,
            final(self).primary_killer_table == old(self).primary_killer_table,
            final(self).secondary_killer_table == old(self).secondary_killer_table,
            final(self).history_table == old(self).history_table,
            final(self).butterfly_table == old(self).butterfly_table,
            final(self).counter_mov_table == old(self).counter_mov_table,
    {
        self.params = params;
        self.evaluator.set_params(eval_params);
    }

    /// Empties the hash table.
    pub fn reset(&mut self)
        requires
            old(self).depth_preferred_hash_table.wf(),
        ensures
            final(self).depth_preferred_hash_table.wf(),
            final(self).depth_preferred_hash_table.entries().len() == old(self).depth_preferred_hash_table.entries().len(),
            forall|i: int| 0 <= i < final(self).depth_preferred_hash_table.entries().len()
                ==> #[trigger] final(self).depth_preferred_hash_table.entries()[i].is_empty(),
            final(self).depth_preferred_hash_table.utilization() == 0,
            final(self).depth_preferred_hash_table.mask() == old(self).depth_preferred_hash_table.mask(),
    {
        self.depth_preferred_hash_table.clear();
    }

    /// Replaces the hash table by an empty one of `hash_size` entries.
    pub fn set_hash_size(&mut self, hash_size: usize)
        requires
            hash_size >= 1,
        ensures
            final(self).depth_preferred_hash_table.wf(),
            final(self).depth_preferred_hash_table.entries().len() == hash_size,
            final(self).depth_preferred_hash_table.utilization() == 0,
    {
        self.depth_preferred_hash_table = DepthPreferredHashTable::new(hash_size);
    }

    /// The number of move paths of length `depth` from the position that never leave a
    /// king attacked. The position is the same afterwards.
    #[verifier::rlimit(40)]
    pub fn perft(&self, state: &mut State, depth: u8) -> (r: usize)
        requires
            old(state).wf(),
            perft_ok(old(state)@, old(state).zob_keys@, *old(state).bitmask, depth as nat),
        ensures
            final(state)@ == old(state)@,
            final(state).zob_keys == old(state).zob_keys,
            final(state).bitmask == old(state).bitmask,
            r == perft_count(old(state)@, old(state).zob_keys@, *old(state).bitmask, depth as nat),
        decreases depth,
    {
        let ghost m = state@;
        let ghost keys = state.zob_keys@;
        let ghost bm = *state.bitmask;
        let ghost zk = state.zob_keys;
        let ghost bmr = state.bitmask;

        if mov_table::is_in_check(state, def::get_opposite_player(state.player)) {
            return 0;
        }

        if depth == 0 {
            return 1;
        }

        let ghost d = (depth - 1) as nat;
        let ghost all = reg_movs(m, bm);
        let ghost u = until_empty(all);

        let mut node_count: usize = 0;
        let mut mov_list: [u32; def::MAX_MOV_COUNT] = [0; def::MAX_MOV_COUNT];
        let ghost zeros = mov_list@;
        proof {
            lemma_mov_lists_fit(m, bm);
        }
        mov_table::gen_reg_mov_list(state, &mut mov_list);
        proof {
            let l = mov_list@;
            let rest = l.subrange(all.len() as int, def::MAX_MOV_COUNT as int);
            assert(l =~= all + rest);
            assert(rest.len() > 0 ==> rest[0] == zeros[all.len() as int]);
            lemma_until_empty_padded(all, rest);
            lemma_until_empty(l);
            assert(until_empty(l) == u);
            lemma_perft_sum_nonneg(m, keys, bm, u, d);
            lemma_king_free_len(m, u);
            assert(u.subrange(0, 0) =~= Seq::<u32>::empty());
            assert(u.subrange(0, u.len() as int) =~= u);
        }

        let mut mov_index: usize = 0;
        while mov_index < def::MAX_MOV_COUNT
            invariant_except_break
                mov_index <= u.len(),
            invariant
                state@ == m,
                m == old(state)@,
                zk == old(state).zob_keys,
                bmr == old(state).bitmask,
                state.zob_keys == zk,
                state.bitmask == bmr,
                keys == zk@,
                bm == *bmr,
                state.wf(),
                depth > 0,
                d == depth - 1,
                !in_check(m, bm, def::opposite(m.player)),
                perft_ok(m, keys, bm, depth as nat),
                perft_sum(m, keys, bm, u.subrange(0, king_free_len(m, u) as int), d) <= usize::MAX,
                king_free_len(m, u) <= u.len(),
                forall|k: int| 0 <= k < king_free_len(m, u) ==> !#[trigger] takes_king(m, u[k]),
                king_free_len(m, u) < u.len() ==> takes_king(m, u[king_free_len(m, u) as int]),
                u.subrange(0, u.len() as int) == u,
                u == until_empty(reg_movs(m, bm)),
                u.len() <= def::MAX_MOV_COUNT,
                forall|k: int| 0 <= k < u.len() ==> #[trigger] u[k] == mov_list@[k] && mov_list@[k] != 0,
                u.len() < def::MAX_MOV_COUNT ==> mov_list@[u.len() as int] == 0,
                forall|k: int| 0 <= k < mov_index && k < u.len() ==> !#[trigger] takes_king(m, u[k]),
                node_count == perft_sum(m, keys, bm, u.subrange(0, mov_index as int), d),
                perft_sum(m, keys, bm, u, d) >= 0,
            ensures
                mov_index == u.len(),
                forall|k: int| 0 <= k < u.len() ==> !#[trigger] takes_king(m, u[k]),
                node_count == perft_sum(m, keys, bm, u, d),
            decreases def::MAX_MOV_COUNT - mov_index,
        {
            let mov = mov_list[mov_index];

            assert(mov_index < u.len() ==> u[mov_index as int] == mov_list@[mov_index as int]);
            if mov == 0 {
                assert(mov_index == u.len());
                assert(u.subrange(0, mov_index as int) =~= u);
                break;
            }
            assert(mov_index < u.len());
            assert(mov == u[mov_index as int]);

            proof { lemma_movs_ok_at(m, keys, bm, u, d, mov_index as int); }
            let (from, to, tp, promo) = crate::util::decode_u32_mov(mov);

            if def::is_k(state.squares[to]) {
                assert(takes_king(m, u[mov_index as int]));
                return 0;
            }

            proof {
                assert(!takes_king(m, u[mov_index as int]));
                let kf = king_free_len(m, u) as int;
                let i = mov_index as int;
                if kf <= i {
                    assert(takes_king(m, u[kf]));
                }
                assert(i < kf);
                let v = u.subrange(0, kf);
                lemma_perft_sum_step(m, keys, bm, v, d, i);
                assert(v.subrange(0, i + 1) =~= u.subrange(0, i + 1));
                assert(v.subrange(0, i) =~= u.subrange(0, i));
                assert(v[i] == u[i]);
                lemma_perft_sum_step(m, keys, bm, u, d, mov_index as int);
                lemma_undo_mov_restores(m, keys, from as int, to as int, tp, promo);
            }

            state.do_mov(from, to, tp, promo);
            let child = self.perft(state, depth - 1);
            state.undo_mov(from, to, tp);
            node_count = node_count + child;

            mov_index = mov_index + 1;
            if mov_index == def::MAX_MOV_COUNT {
                assert(mov_index == u.len());
                assert(u.subrange(0, mov_index as int) =~= u);
            }
        }

        proof {
            assert(!exists|i: int| 0 <= i < u.len() && #[trigger] takes_king(m, u[i]));
        }
        node_count
    }
}


/// The killer tables after a move that caused a cut-off at `ply`: it becomes the primary
/// killer when the slot is empty or it scores and reaches at least as well (the old primary
/// moving to the secondary slot), else the secondary killer when it scores and reaches at
/// least as well as that one. Plies beyond the tables change nothing.
pub open spec fn killers_after(
    primary: Seq<(u32, i32, u8)>,
    secondary: Seq<(u32, i32, u8)>,
    ply: int,
    mov: u32,
    score: i32,
    depth: u8,
) -> (Seq<(u32, i32, u8)>, Seq<(u32, i32, u8)>) {
    if ply >= PV_TRACK_LENGTH {
        (primary, secondary)
    } else {
        let (pm, ps, pd) = primary[ply];
        let (_sm, ss, sd) = secondary[ply];
        if pm != 0 {
            if score >= ps && depth >= pd {
                (primary.update(ply, (mov, score, depth)), secondary.update(ply, primary[ply]))
            } else if score >= ss && depth >= sd {
                (primary, secondary.update(ply, (mov, score, depth)))
            } else {
                (primary, secondary)
            }
        } else {
            (primary.update(ply, (mov, score, depth)), secondary)
        }
    }
}

/// The two killer moves tried at `ply`: those of the ply, with an empty slot filled from
/// two plies up (an empty primary slot taking both moves from there).
pub open spec fn killers_at(primary: Seq<(u32, i32, u8)>, secondary: Seq<(u32, i32, u8)>, ply: int) -> (u32, u32) {
    if ply >= PV_TRACK_LENGTH {
        (0, 0)
    } else if primary[ply].0 == 0 && ply > 2 {
        (primary[ply - 2].0, secondary[ply - 2].0)
    } else if secondary[ply].0 == 0 && ply > 2 {
        (primary[ply].0, primary[ply - 2].0)
    } else {
        (primary[ply].0, secondary[ply].0)
    }
}

/// A pawn of `moving_piece` landing on `to_index` has no enemy pawn ahead on its file or the
/// neighbouring ones and no enemy piece on its file.
pub open spec fn passed_pawn(bm: BitMask, bb: crate::bitboard::BitBoard, moving_piece: u8, to_index: int) -> bool {
    if moving_piece == def::WP {
        bm.wp_forward_masks[to_index] & bb.b_pawn == 0 && bm.file_masks[to_index] & bb.b_all == 0
    } else if moving_piece == def::BP {
        bm.bp_forward_masks[to_index] & bb.w_pawn == 0 && bm.file_masks[to_index] & bb.w_all == 0
    } else {
        false
    }
}

/// A move table in which only the entry of (`p`, `f`, `t`) changed, to `v`.
pub open spec fn bumped(before: [[[i32; 64]; 64]; 2], after: [[[i32; 64]; 64]; 2], p: int, f: int, t: int, v: int) -> bool {
    forall|a: int, b: int, c: int| 0 <= a < 2 && 0 <= b < 64 && 0 <= c < 64 ==>
        #[trigger] after[a][b][c] == if a == p && b == f && c == t { v } else { before[a][b][c] as int }
}

/// The last move played, if any, has both squares on the board.
pub open spec fn last_mov_ok(m: StateModel) -> bool {
    m.history_mov_stack.len() > 0 ==> {
        let (p, f, t) = m.history_mov_stack.last();
        f < 64 && t < 64
    }
}

/// The opponent's last move, when the last move played was the opponent's.
pub open spec fn opponent_last_mov(m: StateModel) -> Option<(usize, usize)> {
    if m.history_mov_stack.len() > 0 && m.history_mov_stack.last().0 != m.player {
        Some((m.history_mov_stack.last().1, m.history_mov_stack.last().2))
    } else {
        None
    }
}

/// The counter-move table after recording `mov` against the opponent's last move: only
/// that entry of the side to move changes, and nothing changes without such a move.
pub open spec fn countered(before: [[[u32; 64]; 64]; 2], after: [[[u32; 64]; 64]; 2], m: StateModel, mov: u32) -> bool {
    forall|a: int, b: int, c: int| 0 <= a < 2 && 0 <= b < 64 && 0 <= c < 64 ==>
        #[trigger] after[a][b][c] == match opponent_last_mov(m) {
            Some((f, t)) => if a == m.player - 1 && b == f && c == t { mov } else { before[a][b][c] },
            None => before[a][b][c],
        }
}

/// The recorded answer to the opponent's last move, or 0.
pub open spec fn counter_mov_of(table: [[[u32; 64]; 64]; 2], m: StateModel) -> u32 {
    match opponent_last_mov(m) {
        Some((f, t)) => table[m.player - 1][f as int][t as int],
        None => 0,
    }
}

/// Whether a pawn of `moving_piece` landing on `to_index` is passed.
pub fn is_passed_pawn(state: &State, moving_piece: u8, to_index: usize) -> (r: bool)
    requires
        to_index < 64,
    ensures
        r == passed_pawn(*state.bitmask, state.bitboard, moving_piece, to_index as int),
{
    let bitmask = state.bitmask;
    match moving_piece {
        def::WP => {
            bitmask.wp_forward_masks[to_index] & state.bitboard.b_pawn == 0
            && bitmask.file_masks[to_index] & state.bitboard.b_all == 0
        },
        def::BP => {
            bitmask.bp_forward_masks[to_index] & state.bitboard.w_pawn == 0
            && bitmask.file_masks[to_index] & state.bitboard.w_all == 0
        },
        _ => false,
    }
}

impl SearchEngine {
    /// Records a move that caused a cut-off at `ply` in the killer tables.
    pub fn update_killer_table(&mut self, ply: u8, mov: u32, score: i32, depth: u8)
        ensures
            (final(self).primary_killer_table@, final(self).secondary_killer_table@)
                == killers_after(old(self).primary_killer_table@, old(self).secondary_killer_table@, ply as int, mov, score, depth),
            final(self).history_table == old(self).history_table,
            final(self).butterfly_table == old(self).butterfly_table,
            final(self).depth_preferred_hash_table == old(self).depth_preferred_hash_table,
            keeps_setup(*old(self), *final(self)),
    {
        let ply_index = ply as usize;

        if ply_index >= PV_TRACK_LENGTH {
            return;
        }

        let (primary_killer_mov, killer_score, killer_depth) = self.primary_killer_table[ply_index];
        if primary_killer_mov != 0 {
            if score >= killer_score && depth >= killer_depth {
                self.primary_killer_table[ply_index] = (mov, score, depth);
                self.secondary_killer_table[ply_index] = (primary_killer_mov, killer_score, killer_depth);
            } else {
                let (_secondary_killer_mov, killer_score, killer_depth) = self.secondary_killer_table[ply_index];
                if score >= killer_score && depth >= killer_depth {
                    self.secondary_killer_table[ply_index] = (mov, score, depth);
                }
            }
        } else {
            self.primary_killer_table[ply_index] = (mov, score, depth);
        }
    }

    /// The two killer moves to try at `ply`.
    pub fn get_killer_mov(&self, ply: u8) -> (r: (u32, u32))
        ensures
            r == killers_at(self.primary_killer_table@, self.secondary_killer_table@, ply as int),
    {
        let ply_index = ply as usize;

        if ply_index >= PV_TRACK_LENGTH {
            return (0, 0);
        }

        let (primary_killer, _score, _depth) = self.primary_killer_table[ply_index];

        if primary_killer == 0 && ply > 2 {
            let (primary_killer, _score, _depth) = self.primary_killer_table[ply_index - 2];
            let (secondary_killer, _score, _depth) = self.secondary_killer_table[ply_index - 2];

            return (primary_killer, secondary_killer);
        }

        let (secondary_killer, _score, _depth) = self.secondary_killer_table[ply_index];

        if secondary_killer == 0 && ply > 2 {
            let (secondary_killer, _score, _depth) = self.primary_killer_table[ply_index - 2];

            return (primary_killer, secondary_killer);
        }

        (primary_killer, secondary_killer)
    }

    /// Adds the cube of `depth` to the history score of a quiet move of `player`.
    pub fn update_history_table(&mut self, player: u8, depth: u8, from: usize, to: usize)
        requires
            def::is_player(player),
            from < 64,
            to < 64,
            old(self).history_table[player as int - 1][from as int][to as int] + depth * depth * depth <= i32::MAX,
        ensures
            bumped(old(self).history_table, final(self).history_table, player as int - 1, from as int, to as int,
                old(self).history_table[player as int - 1][from as int][to as int] + depth * depth * depth),
            final(self).butterfly_table == old(self).butterfly_table,
            final(self).depth_preferred_hash_table == old(self).depth_preferred_hash_table,
            keeps_setup(*old(self), *final(self)),
    {
        let p = player as usize - 1;
        let history_score = self.history_table[p][from][to];
        let increment = depth as i32;
        assert(increment * increment * increment <= 255 * 255 * 255) by (nonlinear_arith)
            requires 0 <= increment <= 255;
        assert(increment * increment * increment >= 0) by (nonlinear_arith)
            requires 0 <= increment;
        assert(increment * increment <= 255 * 255) by (nonlinear_arith)
            requires 0 <= increment <= 255;
        let mut by_from = self.history_table[p];
        let mut by_to = by_from[from];
        by_to[to] = history_score + increment * increment * increment;
        by_from[from] = by_to;
        self.history_table[p] = by_from;
    }

    /// Records `mov` as the answer of the side to move to the opponent's last move, if the
    /// last move played was the opponent's.
    pub fn update_counter_mov_table(&mut self, state: &State, mov: u32)
        requires
            def::is_player(state.player),
            last_mov_ok(state@),
        ensures
            countered(old(self).counter_mov_table, final(self).counter_mov_table, state@, mov),
            final(self).history_table == old(self).history_table,
            final(self).butterfly_table == old(self).butterfly_table,
            final(self).primary_killer_table == old(self).primary_killer_table,
            final(self).secondary_killer_table == old(self).secondary_killer_table,
            final(self).depth_preferred_hash_table == old(self).depth_preferred_hash_table,
            keeps_setup(*old(self), *final(self)),
    {
        let n = state.history_mov_stack.len();
        if n > 0 {
            let (player, from, to) = state.history_mov_stack[n - 1];
            if player != state.player {
                let p = state.player as usize - 1;
                let mut by_from = self.counter_mov_table[p];
                let mut by_to = by_from[from];
                by_to[to] = mov;
                by_from[from] = by_to;
                self.counter_mov_table[p] = by_from;
            }
        }
    }

    /// The recorded answer of the side to move to the opponent's last move, or 0 when the
    /// last move played was not the opponent's or none was played.
    pub fn get_counter_mov(&self, state: &State) -> (r: u32)
        requires
            def::is_player(state.player),
            last_mov_ok(state@),
        ensures
            r == counter_mov_of(self.counter_mov_table, state@),
    {
        let n = state.history_mov_stack.len();
        if n > 0 {
            let (player, from, to) = state.history_mov_stack[n - 1];
            if player != state.player {
                self.counter_mov_table[state.player as usize - 1][from][to]
            } else {
                0
            }
        } else {
            0
        }
    }

    /// Counts one more visit of a quiet move of `player` in the butterfly table.
    pub fn update_butterfly_table(&mut self, player: u8, from: usize, to: usize)
        requires
            def::is_player(player),
            from < 64,
            to < 64,
            old(self).butterfly_table[player as int - 1][from as int][to as int] < i32::MAX,
        ensures
            bumped(old(self).butterfly_table, final(self).butterfly_table, player as int - 1, from as int, to as int,
                old(self).butterfly_table[player as int - 1][from as int][to as int] + 1),
            final(self).history_table == old(self).history_table,
            final(self).depth_preferred_hash_table == old(self).depth_preferred_hash_table,
            keeps_setup(*old(self), *final(self)),
    {
        let p = player as usize - 1;
        let butterfly_score = self.butterfly_table[p][from][to];
        let mut by_from = self.butterfly_table[p];
        let mut by_to = by_from[from];
        by_to[to] = butterfly_score + 1;
        by_from[from] = by_to;
        self.butterfly_table[p] = by_from;
    }

    /// The most-valuable-victim, least-valuable-attacker score of a capture: the value of the
    /// piece taken and of the promotion piece less the value of the mover.
    pub fn mvv_lva(&self, state: &State, from: usize, to: usize, promo: u8) -> (r: i32)
        requires
            from < 64,
            to < 64,
            i32::MIN <= crate::eval::value_of(self.evaluator.params, state.squares[to as int])
                + crate::eval::value_of(self.evaluator.params, promo)
                - crate::eval::value_of(self.evaluator.params, state.squares[from as int]) <= i32::MAX,
            i32::MIN <= crate::eval::value_of(self.evaluator.params, state.squares[to as int])
                + crate::eval::value_of(self.evaluator.params, promo) <= i32::MAX,
        ensures
            r == crate::eval::value_of(self.evaluator.params, state.squares[to as int])
                + crate::eval::value_of(self.evaluator.params, promo)
                - crate::eval::value_of(self.evaluator.params, state.squares[from as int]),
    {
        self.evaluator.val_of(state.squares[to]) + self.evaluator.val_of(promo) - self.evaluator.val_of(state.squares[from])
    }
}


/// The number of occupied squares among the first `n`.
pub open spec fn occupied_upto(squares: Seq<u8>, n: int) -> nat
    decreases n,
{
    if n <= 0 { 0 } else { occupied_upto(squares, n - 1) + if squares[n - 1] != 0 { 1nat } else { 0nat } }
}

pub proof fn lemma_occupied_capture(s: Seq<u8>, from: int, to: int, x: u8, n: int)
    requires
        0 <= from < 64,
        0 <= to < 64,
        from != to,
        s.len() == 64,
        s[from] != 0,
        s[to] != 0,
        x != 0,
        0 <= n <= 64,
    ensures
        occupied_upto(s.update(to, x).update(from, 0), n) == occupied_upto(s, n) - if from < n { 1int } else { 0 },
    decreases n,
{
    if n > 0 {
        lemma_occupied_capture(s, from, to, x, n - 1);
    }
}

/// The exchange on `to` goes on: the cheapest attacker can take, from an occupied square
/// onto the occupied target, and the move can be played and taken back.
pub open spec fn exchange_step_ok(m: StateModel, keys: Seq<Vec<u64>>, bm: BitMask, to: int) -> bool {
    let (a, tp, promo, from) = smallest_attacker(m, keys, bm, to);
    &&& can_do_mov(m, from as int, to, tp, promo)
    &&& can_restore(m, from as int, to, tp)
    &&& m.squares.len() == 64
    &&& def::is_player(m.player)
    &&& from as int != to
    &&& m.squares[from as int] != 0
    &&& m.squares[to] != 0
    &&& (tp == def::MOV_REG || (tp == def::MOV_PROMO && promo != 0))
}

/// What the side to move gains by going on with the exchange on `to`, where its opponent's
/// `last_attacker` just captured: nothing when it has no attacker; otherwise the value of
/// that piece and of any promotion less what the opponent then gains, or nothing if that is
/// negative (the side may stop).
pub open spec fn exchange_gain(m: StateModel, keys: Seq<Vec<u64>>, bm: BitMask, params: EvalParams, to: int, last_attacker: u8) -> int
    decreases occupied_upto(m.squares, 64),
{
    let (a, tp, promo, from) = smallest_attacker(m, keys, bm, to);
    if a == 0 || !exchange_step_ok(m, keys, bm, to) {
        0
    } else {
        let next = do_mov_model(m, keys, from as int, to, tp, promo);
        proof {
            lemma_occupied_capture(m.squares, from as int, to, if tp == def::MOV_REG { m.squares[from as int] } else { promo }, 64);
            assert(next.squares =~= m.squares.update(to, if tp == def::MOV_REG { m.squares[from as int] } else { promo }).update(from as int, 0));
        }
        let g = value_of(params, last_attacker) + value_of(params, promo)
            - exchange_gain(next, keys, bm, params, to, a);
        if g > 0 { g } else { 0 }
    }
}

/// What the exchange on `to` needs at every step: a well-formed position, room in the
/// reversible-move counter, each capture playable, and the gains within `i32`.
pub open spec fn exchange_ok(m: StateModel, keys: Seq<Vec<u64>>, bm: BitMask, params: EvalParams, to: int, last_attacker: u8) -> bool
    decreases occupied_upto(m.squares, 64),
{
    let (a, tp, promo, from) = smallest_attacker(m, keys, bm, to);
    &&& position_ok(m, keys, bm)
    &&& 0 <= to < 64
    &&& m.non_cap_mov_count < u16::MAX
    &&& a != 0 ==> {
        let next = do_mov_model(m, keys, from as int, to, tp, promo);
        &&& exchange_step_ok(m, keys, bm, to)
        &&& i32::MIN <= value_of(params, last_attacker) + value_of(params, promo) <= i32::MAX
        &&& i32::MIN <= value_of(params, last_attacker) + value_of(params, promo)
                - exchange_gain(next, keys, bm, params, to, a) <= i32::MAX
        &&& {
            proof {
                lemma_occupied_capture(m.squares, from as int, to, if tp == def::MOV_REG { m.squares[from as int] } else { promo }, 64);
                assert(next.squares =~= m.squares.update(to, if tp == def::MOV_REG { m.squares[from as int] } else { promo }).update(from as int, 0));
            }
            exchange_ok(next, keys, bm, params, to, a)
        }
    }
}

impl SearchEngine {
    /// The static exchange value for the side to move of the captures on `to` that follow
    /// a capture by `last_attacker`. The position is the same afterwards.
    pub fn see_exchange(&self, state: &mut State, to: usize, last_attacker: u8) -> (r: i32)
        requires
            old(state).wf(),
            exchange_ok(old(state)@, old(state).zob_keys@, *old(state).bitmask, self.evaluator.params, to as int, last_attacker),
        ensures
            final(state)@ == old(state)@,
            final(state).zob_keys == old(state).zob_keys,
            final(state).bitmask == old(state).bitmask,
            r == exchange_gain(old(state)@, old(state).zob_keys@, *old(state).bitmask, self.evaluator.params, to as int, last_attacker),
            r >= 0,
        decreases occupied_upto(old(state)@.squares, 64),
    {
        let ghost m = state@;
        let ghost keys = state.zob_keys@;
        let (attacker, tp, promo, attack_from) = mov_table::get_smallest_attacker_index(state, to);

        if attacker == 0 {
            return 0;
        }

        proof {
            lemma_undo_mov_restores(m, keys, attack_from as int, to as int, tp, promo);
            lemma_occupied_capture(m.squares, attack_from as int, to as int,
                if tp == def::MOV_REG { m.squares[attack_from as int] } else { promo }, 64);
        }
        state.do_mov(attack_from, to, tp, promo);
        assert(state@.squares =~= m.squares.update(to as int,
            if tp == def::MOV_REG { m.squares[attack_from as int] } else { promo }).update(attack_from as int, 0));

        let gain = self.evaluator.val_of(last_attacker) + self.evaluator.val_of(promo) - self.see_exchange(state, to, attacker);
        let score = if gain > 0 { gain } else { 0 };

        state.undo_mov(attack_from, to, tp);

        score
    }
}


/// The static exchange value of the capture `from`-`to` for the side that makes it: what
/// it takes and promotes to, less what its opponent then gains on `to`.
pub open spec fn see_value(m: StateModel, keys: Seq<Vec<u64>>, bm: BitMask, params: EvalParams, from: int, to: int, tp: u8, promo: u8) -> int {
    let next = do_mov_model(m, keys, from, to, tp, promo);
    value_of(params, m.squares[to]) + value_of(params, promo) - exchange_gain(next, keys, bm, params, to, next.squares[to])
}

impl SearchEngine {
    /// The static exchange value of a capture, found by playing it and the cheapest
    /// recaptures on its target; the position is the same afterwards.
    pub fn see(&self, state: &mut State, from: usize, to: usize, tp: u8, promo: u8) -> (r: i32)
        requires
            old(state).wf(),
            can_do_mov(old(state)@, from as int, to as int, tp, promo),
            can_restore(old(state)@, from as int, to as int, tp),
            ({
                let next = do_mov_model(old(state)@, old(state).zob_keys@, from as int, to as int, tp, promo);
                exchange_ok(next, old(state).zob_keys@, *old(state).bitmask, self.evaluator.params, to as int, next.squares[to as int])
            }),
            i32::MIN <= value_of(self.evaluator.params, old(state).squares[to as int]) + value_of(self.evaluator.params, promo) <= i32::MAX,
            i32::MIN <= see_value(old(state)@, old(state).zob_keys@, *old(state).bitmask, self.evaluator.params, from as int, to as int, tp, promo) <= i32::MAX,
        ensures
            final(state)@ == old(state)@,
            final(state).zob_keys == old(state).zob_keys,
            final(state).bitmask == old(state).bitmask,
            r == see_value(old(state)@, old(state).zob_keys@, *old(state).bitmask, self.evaluator.params, from as int, to as int, tp, promo),
    {
        let ghost m = state@;
        let ghost keys = state.zob_keys@;
        proof {
            lemma_undo_mov_restores(m, keys, from as int, to as int, tp, promo);
        }
        let initial_gain = self.evaluator.val_of(state.squares[to]) + self.evaluator.val_of(promo);

        state.do_mov(from, to, tp, promo);

        let score = initial_gain - self.see_exchange(state, to, state.squares[to]);

        state.undo_mov(from, to, tp);

        score
    }
}


/// The key under which a position is stored: its board key combined with the keys of
/// its en-passant square and its castling rights and, with black to move, the key for
/// black to move.
pub open spec fn position_key(m: StateModel, zob_keys: ZobKeys) -> u64 {
    let key = m.hash_key ^ zob_keys.enp_sqr_zob_keys@[m.enp_square as int]
        ^ zob_keys.castling_rights_zob_keys@[m.cas_rights as int];
    if m.player == def::PLAYER_B { key ^ zob_keys.b_player_zob_key } else { key }
}

pub fn get_hash_key(state: &State, zob_keys: &ZobKeys) -> (r: u64)
    requires
        zob_keys.wf(),
        state.enp_square < def::BOARD_SIZE,
        (state.cas_rights as int) < CASTLING_RIGHTS_COMB_SIZE,
    ensures
        r == position_key(state@, *zob_keys),
{
    let mut key = state.hash_key
        ^ zob_keys.get_enp_sqr_zob_key(state.enp_square)
        ^ zob_keys.get_cas_rights_zob_key(state.cas_rights);

    if state.player == def::PLAYER_B {
        key = key ^ zob_keys.get_b_player_zob_key();
    }

    key
}

/// The score that is stored for a search `ply` plies from the root: a mate score moves
/// one further from zero per ply, any other score is kept.
pub open spec fn stored_score(score: i32, ply: u8) -> int {
    if score > TERM_VAL { score + ply } else if score < -TERM_VAL { score - ply } else { score as int }
}

impl SearchEngine {
    /// What the hash table holds for the position.
    pub fn get_hash(&self, state: &State, zob_keys: &ZobKeys) -> (r: Option<LookupResult>)
        requires
            self.depth_preferred_hash_table.wf(),
            zob_keys.wf(),
            state.enp_square < def::BOARD_SIZE,
            (state.cas_rights as int) < CASTLING_RIGHTS_COMB_SIZE,
        ensures
            r == lookup(self.depth_preferred_hash_table.entries(), self.depth_preferred_hash_table.mask(),
                position_key(state@, *zob_keys), state.hash_key),
    {
        self.depth_preferred_hash_table.get(get_hash_key(state, zob_keys), state.hash_key)
    }

    /// Stores a search result for the position, aged by the move count at the root.
    pub fn set_hash(&mut self, state: &State, zob_keys: &ZobKeys, depth: u8, ply: u8, hash_flag: u8, score: i32, eval: i32, mov: u32)
        requires
            old(self).depth_preferred_hash_table.wf(),
            old(self).depth_preferred_hash_table.utilization() < u64::MAX,
            depth as int + old(self).root_full_mov_count as int <= u16::MAX,
            zob_keys.wf(),
            state.enp_square < def::BOARD_SIZE,
            (state.cas_rights as int) < CASTLING_RIGHTS_COMB_SIZE,
            i32::MIN <= stored_score(score, ply) <= i32::MAX,
        ensures
            final(self).depth_preferred_hash_table.wf(),
            final(self).depth_preferred_hash_table.mask() == old(self).depth_preferred_hash_table.mask(),
            final(self).depth_preferred_hash_table.entries() == stored(old(self).depth_preferred_hash_table.entries(),
                old(self).depth_preferred_hash_table.mask(), position_key(state@, *zob_keys), state.hash_key,
                depth, old(self).root_full_mov_count, hash_flag, stored_score(score, ply) as i32, eval, mov),
            final(self).depth_preferred_hash_table.utilization() == old(self).depth_preferred_hash_table.utilization()
                + (if old(self).depth_preferred_hash_table.entries()[crate::hashtable::slot_of(position_key(state@, *zob_keys),
                    old(self).depth_preferred_hash_table.mask())].flag == 0 { 1int } else { 0int }),
            final(self).root_full_mov_count == old(self).root_full_mov_count,
            final(self).primary_killer_table == old(self).primary_killer_table,
            final(self).secondary_killer_table == old(self).secondary_killer_table,
            final(self).history_table == old(self).history_table,
            final(self).butterfly_table == old(self).butterfly_table,
            final(self).counter_mov_table == old(self).counter_mov_table,
            keeps_setup(*old(self), *final(self)),
    {
        let mut score = score;
        if score > TERM_VAL {
            score = score + ply as i32;
        } else if score < -TERM_VAL {
            score = score - ply as i32;
        }

        let key = get_hash_key(state, zob_keys);
        self.depth_preferred_hash_table.set(key, state.hash_key, depth, self.root_full_mov_count, hash_flag, score, eval, mov);
    }
}

/// A position stored with a search that replaces what its slot held is found again with
/// what was stored, its score adjusted for the ply.
pub proof fn lemma_get_hash_after_set_hash(engine: SearchEngine, m: StateModel, zob_keys: ZobKeys, depth: u8, ply: u8,
    hash_flag: u8, score: i32, eval: i32, mov: u32)
    requires
        engine.depth_preferred_hash_table.wf(),
        crate::hashtable::replaces(engine.depth_preferred_hash_table.entries()[crate::hashtable::slot_of(
            position_key(m, zob_keys), engine.depth_preferred_hash_table.mask())], depth, engine.root_full_mov_count),
    ensures
        lookup(stored(engine.depth_preferred_hash_table.entries(), engine.depth_preferred_hash_table.mask(),
                position_key(m, zob_keys), m.hash_key, depth, engine.root_full_mov_count, hash_flag,
                stored_score(score, ply) as i32, eval, mov),
            engine.depth_preferred_hash_table.mask(), position_key(m, zob_keys), m.hash_key)
        == Some(LookupResult { flag: hash_flag, depth, score: stored_score(score, ply) as i32, eval, mov }),
{
    engine.depth_preferred_hash_table.lemma_wf_len();
    crate::hashtable::lemma_get_after_set(engine.depth_preferred_hash_table.entries(),
        engine.depth_preferred_hash_table.mask(), position_key(m, zob_keys), m.hash_key, depth,
        engine.root_full_mov_count, hash_flag, stored_score(score, ply) as i32, eval, mov);
}


pub const PV_PRINT_LENGTH: usize = 16;

/// The move that the table holds for the position, or 0 when it holds none.
pub open spec fn hash_mov(table: DepthPreferredHashTable, m: StateModel, zob_keys: ZobKeys) -> u32 {
    match lookup(table.entries(), table.mask(), position_key(m, zob_keys), m.hash_key) {
        Some(entry) => entry.mov,
        None => 0,
    }
}

/// The position after the move that the table holds for `m`.
pub open spec fn after_hash_mov(table: DepthPreferredHashTable, m: StateModel, keys: Seq<Vec<u64>>, zob_keys: ZobKeys) -> StateModel {
    let mov = hash_mov(table, m, zob_keys);
    do_mov_model(m, keys, mov_from(mov) as int, mov_to(mov) as int, mov_tp(mov), mov_promo(mov))
}

/// The principal variation from `m`, found from the `index`-th move on: the moves that the
/// table holds for the positions that follow one another, up to the first position with
/// none, the first move that leaves its own king in check, or `PV_PRINT_LENGTH` moves.
pub open spec fn pv_from(table: DepthPreferredHashTable, m: StateModel, keys: Seq<Vec<u64>>, bm: BitMask, zob_keys: ZobKeys, index: int) -> Seq<u32>
    decreases PV_PRINT_LENGTH - index,
{
    let mov = hash_mov(table, m, zob_keys);
    let next = after_hash_mov(table, m, keys, zob_keys);
    if index >= PV_PRINT_LENGTH || mov == 0 || in_check(next, bm, m.player) {
        Seq::empty()
    } else {
        seq![mov] + pv_from(table, next, keys, bm, zob_keys, index + 1)
    }
}

/// What following the principal variation needs at every position it reaches: piece
/// codes on the squares, a side to move, keys for its en-passant square and castling
/// rights, the attack tests, and, before the last move, each move the table holds
/// playable and taken back.
pub open spec fn pv_ok(table: DepthPreferredHashTable, m: StateModel, keys: Seq<Vec<u64>>, bm: BitMask, zob_keys: ZobKeys, index: int) -> bool
    decreases PV_PRINT_LENGTH - index,
{
    let mov = hash_mov(table, m, zob_keys);
    let next = after_hash_mov(table, m, keys, zob_keys);
    &&& forall|i: int| 0 <= i < 64 ==> #[trigger] def::is_square_code(m.squares[i])
    &&& can_probe(m, bm)
    &&& (m.cas_rights as int) < CASTLING_RIGHTS_COMB_SIZE
    &&& index < PV_PRINT_LENGTH ==> {
        mov != 0 ==> {
            &&& can_do_mov(m, mov_from(mov) as int, mov_to(mov) as int, mov_tp(mov), mov_promo(mov))
            &&& can_restore(m, mov_from(mov) as int, mov_to(mov) as int, mov_tp(mov))
            &&& can_probe(next, bm)
            &&& !in_check(next, bm, m.player) ==> pv_ok(table, next, keys, bm, zob_keys, index + 1)
        }
    }
}

/// `s` with the entries from `start` on replaced by `w`.
pub open spec fn overwritten(s: Seq<u32>, start: int, w: Seq<u32>) -> Seq<u32> {
    Seq::new(s.len(), |i: int| if start <= i < start + w.len() { w[i - start] } else { s[i] })
}

impl SearchEngine {
    /// Writes the principal variation that the hash table holds for the position into
    /// `pv_table` from `mov_index` on; the position is the same afterwards.
    #[verifier::rlimit(40)]
    pub fn retrieve_pv(&self, state: &mut State, zob_keys: &ZobKeys, pv_table: &mut [u32], mov_index: usize)
        requires
            old(state).wf(),
            self.depth_preferred_hash_table.wf(),
            zob_keys.wf(),
            mov_index <= PV_PRINT_LENGTH,
            old(pv_table)@.len() >= PV_PRINT_LENGTH,
            pv_ok(self.depth_preferred_hash_table, old(state)@, old(state).zob_keys@, *old(state).bitmask, *zob_keys, mov_index as int),
        ensures
            final(state)@ == old(state)@,
            final(state).zob_keys == old(state).zob_keys,
            final(state).bitmask == old(state).bitmask,
            final(pv_table)@ == overwritten(old(pv_table)@, mov_index as int,
                pv_from(self.depth_preferred_hash_table, old(state)@, old(state).zob_keys@, *old(state).bitmask, *zob_keys, mov_index as int)),
        decreases PV_PRINT_LENGTH - mov_index,
    {
        let ghost m = state@;
        let ghost keys = state.zob_keys@;
        let ghost pv = pv_from(self.depth_preferred_hash_table, m, keys, *state.bitmask, *zob_keys, mov_index as int);
        let ghost old_pv_table = pv_table@;

        if mov_index == PV_PRINT_LENGTH {
            assert(pv_table@ =~= overwritten(old_pv_table, mov_index as int, pv));
            return;
        }

        let mut mov: u32 = 0;

        match self.get_hash(state, zob_keys) {
            Some(entry) => {
                mov = entry.mov;
            },
            None => {},
        }

        if mov == 0 {
            assert(pv_table@ =~= overwritten(old_pv_table, mov_index as int, pv));
            return;
        }

        let player = state.player;

        let (from, to, tp, promo) = crate::util::decode_u32_mov(mov);
        proof {
            lemma_undo_mov_restores(m, keys, from as int, to as int, tp, promo);
        }
        state.do_mov(from, to, tp, promo);

        if mov_table::is_in_check(state, player) {
            state.undo_mov(from, to, tp);
            assert(pv_table@ =~= overwritten(old_pv_table, mov_index as int, pv));
            return;
        }

        pv_table[mov_index] = mov;

        proof {
            let table = self.depth_preferred_hash_table;
            assert(mov == hash_mov(table, m, *zob_keys));
            assert(state@ == after_hash_mov(table, m, keys, *zob_keys));
            assert(pv_ok(table, state@, keys, *state.bitmask, *zob_keys, mov_index as int + 1));
            assert(forall|i: int| 0 <= i < 64 ==> #[trigger] def::is_square_code(state@.squares[i]));
        }
        self.retrieve_pv(state, zob_keys, pv_table, mov_index + 1);

        state.undo_mov(from, to, tp);

        proof {
            let rest = pv_from(self.depth_preferred_hash_table, state_after(m, keys, mov), keys, *state.bitmask, *zob_keys, mov_index as int + 1);
            assert(pv == seq![mov] + rest);
            assert(pv_table@ =~= overwritten(old_pv_table, mov_index as int, pv));
        }
    }
}

/// The position after playing the encoded move `mov`.
pub open spec fn state_after(m: StateModel, keys: Seq<Vec<u64>>, mov: u32) -> StateModel {
    do_mov_model(m, keys, mov_from(mov) as int, mov_to(mov) as int, mov_tp(mov), mov_promo(mov))
}


pub const TIME_CHECK_INTERVAL: u64 = 1023;

/// Multi-cut pruning, whose parameters the parameter set does not carry: from this depth
/// on, off the principal variation, the first moves are searched shallower, and enough of
/// them failing high cuts the node.
pub const MULTI_CUT_PRUNING_DEPTH: u8 = 5;
pub const MULTI_CUT_PRUNING_MOVE_COUNT: usize = 6;
pub const MULTI_CUT_PRUNING_CUT_COUNT: usize = 3;
pub const MULTI_CUT_PRUNING_REDUCTION: u8 = 3;

/// The ordering values of quiet checks and quiet pawn moves that become passed pawns,
/// below the counter move and the killers.
pub const SORTING_CHECKER_VAL: i64 = -50;
pub const SORTING_PASSER_VAL: i64 = -60;

/// The game phase up to which a position counts as an endgame, where the quiescence search
/// does not prune captures by their gain.
pub const ENDGAME_PHASE: i32 = 24;

/// The scores the hash table holds, and the evaluations stored with them, lie within the
/// mate scores.
pub open spec fn table_scores_ok(entries: Seq<TableEntry>) -> bool {
    forall|i: int| 0 <= i < entries.len() ==>
        -MATE_VAL <= #[trigger] entries[i].score <= MATE_VAL && -MATE_VAL <= entries[i].eval <= MATE_VAL
}

/// What the search needs of a position and the engine: a well-formed position that the
/// attack tests can probe, castling rights and keys that index the key tables, and a
/// well-formed hash table whose scores lie within the mate scores.
pub open spec fn search_ready(engine: SearchEngine, state: State, zob_keys: ZobKeys) -> bool {
    &&& state.wf()
    &&& can_probe(state@, *state.bitmask)
    &&& (state.cas_rights as int) < CASTLING_RIGHTS_COMB_SIZE
    &&& zob_keys.wf()
    &&& engine.depth_preferred_hash_table.wf()
    &&& table_scores_ok(engine.depth_preferred_hash_table.entries())
}

/// What every part of the search keeps: the position is the same afterwards, the hash
/// table stays well formed with its scores within the mate scores, the evaluator, the
/// parameters and the counts at the root stay, and a stopped search stays stopped.
pub open spec fn search_kept(before: SearchEngine, after: SearchEngine, s0: State, s1: State) -> bool {
    &&& s1@ == s0@
    &&& s1.zob_keys == s0.zob_keys
    &&& s1.bitmask == s0.bitmask
    &&& after.depth_preferred_hash_table.wf()
    &&& table_scores_ok(after.depth_preferred_hash_table.entries())
    &&& after.evaluator == before.evaluator
    &&& after.params == before.params
    &&& after.root_full_mov_count == before.root_full_mov_count
    &&& after.root_half_mov_count == before.root_half_mov_count
    &&& before.aborted ==> after.aborted
    &&& after.infos == before.infos
}

/// A position counts as an endgame when little is left beside pawns and kings.
pub open spec fn in_endgame(state: State) -> bool {
    crate::eval::phase_of(state) <= ENDGAME_PHASE
}

pub fn is_in_endgame(state: &State) -> (r: bool)
    ensures
        r == in_endgame(*state),
{
    crate::eval::get_phase(state) <= ENDGAME_PHASE
}

/// The move can be played and is taken back exactly (see `can_restore`).
pub fn restorable(state: &State, from: usize, to: usize, tp: u8) -> (r: bool)
    requires
        from < 64,
        to < 64,
    ensures
        r == can_restore(state@, from as int, to as int, tp),
{
    if from == to {
        return false;
    }
    if tp == def::MOV_PROMO {
        let pawn = if state.player == def::PLAYER_W { def::WP } else { def::BP };
        if state.squares[from] != pawn {
            return false;
        }
    }
    if tp == def::MOV_CAS && (to == def::CAS_SQUARE_WK || to == def::CAS_SQUARE_BK || to == def::CAS_SQUARE_WQ || to == def::CAS_SQUARE_BQ) {
        let (k, rk, rt, kp, rp): (usize, usize, usize, u8, u8) =
            if to == def::CAS_SQUARE_WK { (4, 7, 5, def::WK, def::WR) }
            else if to == def::CAS_SQUARE_BK { (60, 63, 61, def::BK, def::BR) }
            else if to == def::CAS_SQUARE_WQ { (4, 0, 3, def::WK, def::WR) }
            else { (60, 56, 59, def::BK, def::BR) };
        if !(state.squares[k] == kp && state.squares[rk] == rp && state.squares[rt] == 0 && state.squares[to] == 0) {
            return false;
        }
    }
    if tp == def::MOV_ENP {
        if state.squares[to] != 0 {
            return false;
        }
        if state.player == def::PLAYER_W {
            if to >= 8 && from == to - 8 {
                return false;
            }
        } else {
            if from == to + 8 {
                return false;
            }
        }
    }
    if tp == def::MOV_CR_ENP && state.squares[to] != 0 {
        return false;
    }
    true
}

/// The move can be played by `do_mov` and taken back exactly.
pub fn playable(state: &State, from: usize, to: usize, tp: u8, promo: u8) -> (r: bool)
    ensures
        r == (can_do_mov(state@, from as int, to as int, tp, promo) && can_restore(state@, from as int, to as int, tp)),
{
    if !state.can_play(from, to, tp, promo) {
        return false;
    }
    restorable(state, from, to, tp)
}

/// The position meets what the search needs of it, with keys and masks that were found
/// right before.
pub fn probe_ready(state: &State) -> (r: bool)
    requires
        state.bitmask.wf(),
    ensures
        r == (state.wf() && can_probe(state@, *state.bitmask) && (state.cas_rights as int) < CASTLING_RIGHTS_COMB_SIZE),
{
    state.wk_index < 64 && state.bk_index < 64 && state.enp_square < 64
        && (state.cas_rights as usize) < CASTLING_RIGHTS_COMB_SIZE && state.check_wf()
}

/// The largest number whose square is at most `n`.
pub fn isqrt(n: usize) -> (r: u8)
    requires
        n <= 255 * 255,
    ensures
        r * r <= n,
        n < (r + 1) * (r + 1),
{
    let mut r: u8 = 0;
    let mut done = false;
    while !done && r < 255
        invariant
            r <= 255,
            r * r <= n,
            n <= 255 * 255,
            done ==> n < (r + 1) * (r + 1),
        decreases 255 - r + (if done { 0int } else { 1int }),
    {
        let r1: usize = r as usize + 1;
        assert(r1 * r1 <= 65536) by (nonlinear_arith)
            requires
                r1 <= 256,
        ;
        if r1 * r1 > n {
            done = true;
        } else {
            r = r + 1;
        }
    }
    if !done {
        assert(n < (r + 1) * (r + 1)) by (nonlinear_arith)
            requires
                r == 255,
                n <= 255 * 255,
        ;
    }
    r
}

/// A margin per ply times the depth, exactly.
pub fn wide_product(margin: i32, depth: u8) -> (r: i64)
    ensures
        r == margin * depth,
        -0x100_0000_0000 <= r <= 0x100_0000_0000,
{
    let a = margin as i64;
    let b = depth as i64;
    assert(-0x100_0000_0000 <= a * b <= 0x100_0000_0000) by (nonlinear_arith)
        requires
            -0x8000_0000 <= a <= 0x7fff_ffff,
            0 <= b <= 255,
    ;
    a * b
}

/// A found score of the table seen from `ply` plies below the root: a mate score comes one
/// nearer per ply.
pub open spec fn score_at_ply(score: i32, ply: u8) -> int {
    if score > TERM_VAL { score - ply } else if score < -TERM_VAL { score + ply } else { score as int }
}

pub fn adjust_hash_score(score: i32, ply: u8) -> (r: i32)
    requires
        -MATE_VAL <= score <= MATE_VAL,
    ensures
        r == score_at_ply(score, ply),
        -MATE_VAL <= r <= MATE_VAL,
{
    if score > TERM_VAL {
        score - ply as i32
    } else if score < -TERM_VAL {
        score + ply as i32
    } else {
        score
    }
}

/// What the table holds is within the mate scores.
proof fn lemma_lookup_bounded(table: DepthPreferredHashTable, key: u64, safe_check: u64)
    requires
        table.wf(),
        table_scores_ok(table.entries()),
    ensures
        lookup(table.entries(), table.mask(), key, safe_check) matches Some(e)
            ==> -MATE_VAL <= e.score <= MATE_VAL && -MATE_VAL <= e.eval <= MATE_VAL,
{
    table.lemma_wf_len();
    crate::hashtable::lemma_slot_in_table(key, table.mask());
    let i = crate::hashtable::slot_of(key, table.mask());
    assert(-MATE_VAL <= table.entries()[i].score <= MATE_VAL);
}

/// The most-valuable-victim, least-valuable-attacker score of a capture, exactly.
fn mvv_lva_wide(ev: &Evaluator, state: &State, from: usize, to: usize, promo: u8) -> (r: i64)
    requires
        from < 64,
        to < 64,
    ensures
        r == value_of(ev.params, state.squares[to as int]) + value_of(ev.params, promo) - value_of(ev.params, state.squares[from as int]),
        -0x1_8000_0000 <= r <= 0x1_8000_0000,
{
    ev.val_of(state.squares[to]) as i64 + ev.val_of(promo) as i64 - ev.val_of(state.squares[from]) as i64
}

/// A move of the main search with what its ordering found out.
pub struct OrderedMov {
    pub mov: u32,
    pub sort_score: i64,
    pub gives_check: bool,
    pub is_passer: bool,
}

/// Sorts by falling score; moves of equal score keep their order. The moves are the same.
fn sort_ordered(v: &mut Vec<OrderedMov>)
    ensures
        final(v)@.len() == old(v)@.len(),
{
    let n = v.len();
    let mut i: usize = 1;
    while i < n
        invariant
            v@.len() == n,
        decreases n - i,
    {
        let mut j = i;
        while j > 0 && v[j - 1].sort_score < v[j].sort_score
            invariant
                v@.len() == n,
                j <= i < n,
            decreases j,
        {
            let a = v.remove(j - 1);
            v.insert(j, a);
            j = j - 1;
        }
        i = i + 1;
    }
}

/// Sorts pairs of a move and its score by falling score; equal scores keep their order.
fn sort_scored(v: &mut Vec<(u32, i64)>)
    ensures
        final(v)@.len() == old(v)@.len(),
{
    let n = v.len();
    let mut i: usize = 1;
    while i < n
        invariant
            v@.len() == n,
        decreases n - i,
    {
        let mut j = i;
        while j > 0 && v[j - 1].1 < v[j].1
            invariant
                v@.len() == n,
                j <= i < n,
            decreases j,
        {
            let a = v.remove(j - 1);
            v.insert(j, a);
            j = j - 1;
        }
        i = i + 1;
    }
}

impl SearchEngine {
    /// The static exchange value of the captures on `to` after a capture by `last_attacker`
    /// (see `exchange_gain`), or `None` where a step cannot be played, leaves a position the
    /// attack tests cannot probe, or a gain leaves `i32`. The position is the same afterwards.
    fn see_exchange_checked(&self, state: &mut State, to: usize, last_attacker: u8) -> (r: Option<i32>)
        requires
            old(state).wf(),
            can_probe(old(state)@, *old(state).bitmask),
            to < 64,
        ensures
            final(state)@ == old(state)@,
            final(state).zob_keys == old(state).zob_keys,
            final(state).bitmask == old(state).bitmask,
            r matches Some(v) ==> v == exchange_gain(old(state)@, old(state).zob_keys@, *old(state).bitmask,
                self.evaluator.params, to as int, last_attacker) && v >= 0,
        decreases occupied_upto(old(state)@.squares, 64),
    {
        let ghost m = state@;
        let ghost keys = state.zob_keys@;
        if state.non_cap_mov_count == u16::MAX {
            return None;
        }
        let (attacker, tp, promo, attack_from) = mov_table::get_smallest_attacker_index(state, to);
        if attacker == 0 {
            return Some(0);
        }
        if !(attack_from < 64 && attack_from != to && playable(state, attack_from, to, tp, promo)
            && state.squares[attack_from] != 0 && state.squares[to] != 0
            && (tp == def::MOV_REG || (tp == def::MOV_PROMO && promo != 0))) {
            return None;
        }
        proof {
            lemma_undo_mov_restores(m, keys, attack_from as int, to as int, tp, promo);
            lemma_occupied_capture(m.squares, attack_from as int, to as int,
                if tp == def::MOV_REG { m.squares[attack_from as int] } else { promo }, 64);
        }
        state.do_mov(attack_from, to, tp, promo);
        assert(state@.squares =~= m.squares.update(to as int,
            if tp == def::MOV_REG { m.squares[attack_from as int] } else { promo }).update(attack_from as int, 0));
        if !probe_ready(state) {
            state.undo_mov(attack_from, to, tp);
            return None;
        }
        let rest = self.see_exchange_checked(state, to, attacker);
        state.undo_mov(attack_from, to, tp);
        match rest {
            None => None,
            Some(v) => {
                let g = self.evaluator.val_of(last_attacker) as i64 + self.evaluator.val_of(promo) as i64 - v as i64;
                if g > i32::MAX as i64 {
                    None
                } else if g > 0 {
                    Some(g as i32)
                } else {
                    Some(0)
                }
            },
        }
    }

    /// The static exchange value of a capture (see `see_value`), or `None` where it cannot
    /// be worked out within the checks of `see_exchange_checked`. The position is the same
    /// afterwards.
    fn see_checked(&self, state: &mut State, from: usize, to: usize, tp: u8, promo: u8) -> (r: Option<i32>)
        requires
            old(state).wf(),
            can_probe(old(state)@, *old(state).bitmask),
        ensures
            final(state)@ == old(state)@,
            final(state).zob_keys == old(state).zob_keys,
            final(state).bitmask == old(state).bitmask,
            r matches Some(v) ==> v == see_value(old(state)@, old(state).zob_keys@, *old(state).bitmask,
                self.evaluator.params, from as int, to as int, tp, promo),
    {
        let ghost m = state@;
        let ghost keys = state.zob_keys@;
        if !playable(state, from, to, tp, promo) {
            return None;
        }
        proof {
            lemma_undo_mov_restores(m, keys, from as int, to as int, tp, promo);
        }
        let initial_gain = self.evaluator.val_of(state.squares[to]) as i64 + self.evaluator.val_of(promo) as i64;
        state.do_mov(from, to, tp, promo);
        if !probe_ready(state) {
            state.undo_mov(from, to, tp);
            return None;
        }
        let rest = self.see_exchange_checked(state, to, state.squares[to]);
        state.undo_mov(from, to, tp);
        match rest {
            None => None,
            Some(v) => {
                let s = initial_gain - v as i64;
                if s > i32::MAX as i64 || s < i32::MIN as i64 {
                    None
                } else {
                    Some(s as i32)
                }
            },
        }
    }

    /// Stores a search result for the position unless the table's use count or the age
    /// would overflow. A mate score is stored no further from zero than the mate score.
    fn store(&mut self, state: &State, zob_keys: &ZobKeys, depth: u8, ply: u8, flag: u8, score: i32, eval: i32, mov: u32)
        requires
            old(self).depth_preferred_hash_table.wf(),
            table_scores_ok(old(self).depth_preferred_hash_table.entries()),
            zob_keys.wf(),
            state.enp_square < def::BOARD_SIZE,
            (state.cas_rights as int) < CASTLING_RIGHTS_COMB_SIZE,
            -MATE_VAL <= score <= MATE_VAL,
            -MATE_VAL <= eval <= MATE_VAL,
        ensures
            final(self).depth_preferred_hash_table.wf(),
            table_scores_ok(final(self).depth_preferred_hash_table.entries()),
            keeps_setup(*old(self), *final(self)),
            final(self).primary_killer_table == old(self).primary_killer_table,
            final(self).secondary_killer_table == old(self).secondary_killer_table,
            final(self).history_table == old(self).history_table,
            final(self).butterfly_table == old(self).butterfly_table,
            final(self).counter_mov_table == old(self).counter_mov_table,
    {
        if self.depth_preferred_hash_table.used_slots() == u64::MAX {
            return;
        }
        if depth as u32 + self.root_full_mov_count as u32 > u16::MAX as u32 {
            return;
        }
        let s = if score > TERM_VAL && score as i64 + ply as i64 > MATE_VAL as i64 {
            MATE_VAL - ply as i32
        } else if score < -TERM_VAL && score as i64 - (ply as i64) < -MATE_VAL as i64 {
            -MATE_VAL + ply as i32
        } else {
            score
        };
        assert(-MATE_VAL <= stored_score(s, ply) <= MATE_VAL);
        let ghost before = self.depth_preferred_hash_table.entries();
        let ghost mask = self.depth_preferred_hash_table.mask();
        proof {
            self.depth_preferred_hash_table.lemma_wf_len();
            crate::hashtable::lemma_slot_in_table(position_key(state@, *zob_keys), mask);
        }
        let ghost age = self.root_full_mov_count;
        self.set_hash(state, zob_keys, depth, ply, flag, s, eval, mov);
        proof {
            let after = self.depth_preferred_hash_table.entries();
            let key = position_key(state@, *zob_keys);
            let j = crate::hashtable::slot_of(key, mask);
            let sc = stored_score(s, ply) as i32;
            assert(sc == stored_score(s, ply));
            assert forall|i: int| 0 <= i < after.len() implies
                -MATE_VAL <= #[trigger] after[i].score <= MATE_VAL && -MATE_VAL <= after[i].eval <= MATE_VAL by {
                if crate::hashtable::replaces(before[j], depth, age) && i == j {
                    let e = TableEntry { key, safe_check: state.hash_key, flag, age, depth, score: sc, eval, mov };
                    assert(after == before.update(j, e));
                    assert(0 <= j < before.len());
                    assert(before.update(j, e)[j] == e);
                    assert(after[i].score == sc);
                    assert(after[i].eval == eval);
                } else {
                    assert(after[i] == before[i]);
                }
            }
        }
    }
}

/// The node count after counting one more node (it stops at its largest value).
pub open spec fn next_count(n: u64) -> u64 {
    if n < u64::MAX { (n + 1) as u64 } else { n }
}

/// Counting one more node after `n` does not make the search ask the clock.
pub open spec fn clock_quiet(n: u64) -> bool {
    next_count(n) & TIME_CHECK_INTERVAL != 0
}

/// A hash entry found `ply` plies from the root ends a search of `depth` off the principal
/// variation: an exact score, a lower bound at or above `beta`, or an upper bound at or below
/// `alpha`.
pub open spec fn hash_cut(e: LookupResult, alpha: i32, beta: i32, ply: u8) -> bool {
    let hs = score_at_ply(e.score, ply);
    ||| e.flag == HASH_TYPE_EXACT
    ||| (e.flag == HASH_TYPE_BETA && hs >= beta)
    ||| (e.flag == HASH_TYPE_ALPHA && hs <= alpha)
}

/// What the quiescence search returns without trying a move, if anything: the adjusted
/// score of a hash entry that ends the search off the principal variation; otherwise, out of
/// check, the evaluation stored with the entry when it reaches `beta`; without an entry, 0 for a
/// material draw, and out of check the evaluation when it reaches `beta` (standing pat) or
/// when the side to move has no capture or promotion.
pub open spec fn q_early(engine: SearchEngine, state: State, zob_keys: ZobKeys, alpha: i32, beta: i32, ply: u8) -> Option<int> {
    let m = state@;
    let on_pv = beta - alpha > 1;
    let checked = in_check(m, *state.bitmask, m.player);
    match lookup(engine.depth_preferred_hash_table.entries(), engine.depth_preferred_hash_table.mask(),
        position_key(m, zob_keys), state.hash_key) {
        Some(e) => {
            if !on_pv && hash_cut(e, alpha, beta, ply) {
                Some(score_at_ply(e.score, ply))
            } else if !checked && e.eval >= beta {
                Some(e.eval as int)
            } else {
                None
            }
        },
        None => {
            if crate::eval::material_draw(state) {
                Some(0)
            } else if !checked && bounded_eval(engine.evaluator.params, state) >= beta {
                Some(bounded_eval(engine.evaluator.params, state))
            } else if !checked && crate::mov_table::cap_movs(m, *state.bitmask).len() == 0 {
                Some(bounded_eval(engine.evaluator.params, state))
            } else {
                None
            }
        },
    }
}

/// What the alpha-beta search returns without trying a move or going on with the quiescence
/// search, if anything: 0 for a repetition below the root (outside a null-move search), the
/// bounded evaluation at the last ply, and at depth 1 or more the adjusted score of a hash
/// entry that ends the search off the principal variation, or without an entry 0 for a
/// material draw below the root.
pub open spec fn ab_early(engine: SearchEngine, state: State, zob_keys: ZobKeys, alpha: i32, beta: i32, depth: u8, ply: u8) -> Option<int> {
    let m = state@;
    let on_pv = beta - alpha > 1;
    if ply > 0 && engine.null_mov_count == 0 && crate::state::is_draw_spec(m) {
        Some(0)
    } else if ply == 255 {
        Some(bounded_eval(engine.evaluator.params, state))
    } else if depth == 0 {
        None
    } else {
        match lookup(engine.depth_preferred_hash_table.entries(), engine.depth_preferred_hash_table.mask(),
            position_key(m, zob_keys), state.hash_key) {
            Some(e) => if !on_pv && e.depth >= depth && hash_cut(e, alpha, beta, ply) {
                Some(score_at_ply(e.score, ply))
            } else {
                None
            },
            None => if crate::eval::material_draw(state) && ply > 0 { Some(0) } else { None },
        }
    }
}

/// The quiescence search stands pat: nothing is stored for the position, it is no material
/// draw, the side to move is not in check, and the evaluation reaches `beta`.
pub open spec fn stands_pat(engine: SearchEngine, state: State, zob_keys: ZobKeys, beta: i32) -> bool {
    &&& lookup(engine.depth_preferred_hash_table.entries(), engine.depth_preferred_hash_table.mask(),
            position_key(state@, zob_keys), state.hash_key) is None
    &&& !crate::eval::material_draw(state)
    &&& !in_check(state@, *state.bitmask, state.player)
    &&& bounded_eval(engine.evaluator.params, state) >= beta
}

impl SearchEngine {
    /// The quiescence search: the static evaluation, improved by captures and promotions
    /// that do not lose material, searched until the position is quiet, within the window
    /// (`alpha`, `beta`). In check it searches every move one ply deep. The position is the
    /// same afterwards, and the score lies within the mate scores. Where it returns without
    /// trying a move (see `q_early`) and counting the node does not make it ask the clock, the
    /// score is stated exactly and the search is not stopped. The score of a search that tries
    /// moves is not stated: it rests on the hash table that the search rewrites as it goes.
    #[verifier::rlimit(100)]
    pub fn q_search(&mut self, state: &mut State, zob_keys: &ZobKeys, clock: &SearchClock, alpha0: i32, beta: i32, ply: u8) -> (r: i32)
        requires
            search_ready(*old(self), *old(state), *zob_keys),
            -MATE_VAL <= alpha0 < beta <= MATE_VAL,
        ensures
            search_kept(*old(self), *final(self), *old(state), *final(state)),
            -MATE_VAL <= r <= MATE_VAL,
            stands_pat(*old(self), *old(state), *zob_keys, beta)
                ==> r == bounded_eval(old(self).evaluator.params, *old(state)) || (final(self).aborted && r == alpha0),
            !old(self).aborted && clock_quiet(old(self).node_count)
                && q_early(*old(self), *old(state), *zob_keys, alpha0, beta, ply) is Some
                ==> r == q_early(*old(self), *old(state), *zob_keys, alpha0, beta, ply)->0 && !final(self).aborted,
        decreases 256 - ply as int, (if in_check(old(state)@, *old(state).bitmask, old(state).player) { 4int } else { 2int }), 0int,
    {
        let ghost m = state@;
        let ghost keys = state.zob_keys@;
        let ghost bm = *state.bitmask;
        let ghost e0 = *self;
        let ghost s0 = *state;
        let mut alpha = alpha0;

        if self.count_node(clock) {
            return alpha;
        }

        if ply > self.seldepth {
            self.seldepth = ply;
        }

        let on_pv = beta - alpha > 1;
        let mut hash_mov: u32 = 0;
        let static_eval: i32;

        proof {
            lemma_lookup_bounded(self.depth_preferred_hash_table, position_key(m, *zob_keys), m.hash_key);
        }
        match self.get_hash(state, zob_keys) {
            Some(entry) => {
                static_eval = entry.eval;
                let (_from, to, _tp, promo) = crate::util::decode_u32_mov(entry.mov);
                if promo != 0 || (to < 64 && state.squares[to] != 0) {
                    hash_mov = entry.mov;
                }
                if !on_pv {
                    let hash_score = adjust_hash_score(entry.score, ply);
                    if entry.flag == HASH_TYPE_EXACT {
                        return hash_score;
                    } else if entry.flag == HASH_TYPE_BETA {
                        if hash_score >= beta {
                            return hash_score;
                        }
                    } else if entry.flag == HASH_TYPE_ALPHA {
                        if hash_score <= alpha {
                            return hash_score;
                        }
                    }
                }
            },
            None => {
                if self.evaluator.is_material_draw(state) {
                    return 0;
                }
                static_eval = self.evaluator.eval_bounded(state);
            },
        }

        if mov_table::is_in_check(state, state.player) {
            return self.ab_search(state, zob_keys, clock, true, false, alpha, beta, 1, ply);
        }

        if static_eval >= beta {
            return static_eval;
        }

        if static_eval > alpha {
            alpha = static_eval;
        }

        let in_endgame = is_in_endgame(state);
        let original_alpha = alpha;
        let mut best_mov: u32 = 0;
        let mut best_score = static_eval;

        if hash_mov != 0 && ply < 255 {
            let (from, to, tp, promo) = crate::util::decode_u32_mov(hash_mov);
            if playable(state, from, to, tp, promo) {
                proof {
                    lemma_undo_mov_restores(m, keys, from as int, to as int, tp, promo);
                }
                state.do_mov(from, to, tp, promo);
                if probe_ready(state) {
                    let score = -self.q_search(state, zob_keys, clock, -beta, -alpha, ply + 1);
                    state.undo_mov(from, to, tp);
                    if self.aborted {
                        return alpha;
                    }
                    if score >= beta {
                        self.store(state, zob_keys, 0, ply, HASH_TYPE_BETA, score, static_eval, hash_mov);
                        return score;
                    }
                    if score > alpha {
                        alpha = score;
                    }
                    if score > best_score {
                        best_score = score;
                        best_mov = hash_mov;
                    }
                } else {
                    state.undo_mov(from, to, tp);
                }
            }
        }

        let mut mov_list: [u32; def::MAX_CAP_COUNT] = [0; def::MAX_CAP_COUNT];
        let ghost zeros = mov_list@;
        assert(zeros[0] == 0);
        proof {
            lemma_mov_lists_fit(state@, *state.bitmask);
        }
        mov_table::gen_capture_and_promo_list(state, &mut mov_list);
        proof {
            let l = mov_list@;
            let caps = crate::mov_table::cap_movs(m, bm);
            if caps.len() == 0 {
                assert(l.subrange(0, def::MAX_CAP_COUNT as int)[0] == l[0]);
                assert(zeros.subrange(0, def::MAX_CAP_COUNT as int)[0] == zeros[0]);
                assert(l[0] == 0);
            }
        }

        if mov_list[0] == 0 {
            return static_eval;
        }

        let scored_mov_list = self.score_captures(state, &mov_list, hash_mov, in_endgame, static_eval, alpha);

        if scored_mov_list.len() == 0 {
            return alpha;
        }

        let mut k: usize = 0;
        while k < scored_mov_list.len()
            invariant
                search_ready(*self, *state, *zob_keys),
                search_kept(e0, *self, s0, *state),
                e0 == *old(self),
                s0 == *old(state),
                -MATE_VAL <= alpha < beta <= MATE_VAL,
                -MATE_VAL <= original_alpha <= alpha,
                -MATE_VAL <= static_eval <= MATE_VAL,
                -MATE_VAL <= best_score <= MATE_VAL,
                m == s0@,
                keys == s0.zob_keys@,
                bm == *s0.bitmask,
                !stands_pat(e0, s0, *zob_keys, beta),
                q_early(e0, s0, *zob_keys, alpha0, beta, ply) is None,
            decreases scored_mov_list.len() - k,
        {
            let mov = scored_mov_list[k].0;
            k = k + 1;
            let (from, to, tp, promo) = crate::util::decode_u32_mov(mov);
            if ply < 255 && playable(state, from, to, tp, promo) {
                proof {
                    lemma_undo_mov_restores(m, keys, from as int, to as int, tp, promo);
                }
                state.do_mov(from, to, tp, promo);
                if probe_ready(state) {
                    let score = -self.q_search(state, zob_keys, clock, -beta, -alpha, ply + 1);
                    state.undo_mov(from, to, tp);
                    if self.aborted {
                        return alpha;
                    }
                    if score >= beta {
                        self.store(state, zob_keys, 0, ply, HASH_TYPE_BETA, score, static_eval, mov);
                        return score;
                    }
                    if score > alpha {
                        alpha = score;
                    }
                    if score > best_score {
                        best_score = score;
                        best_mov = mov;
                    }
                } else {
                    state.undo_mov(from, to, tp);
                }
            }
        }

        if alpha > original_alpha {
            self.store(state, zob_keys, 0, ply, HASH_TYPE_EXACT, alpha, static_eval, best_mov);
        } else {
            self.store(state, zob_keys, 0, ply, HASH_TYPE_ALPHA, alpha, static_eval, best_mov);
        }

        alpha
    }

    /// The captures and promotions of the list, up to its first empty entry, that the
    /// quiescence search tries, with their ordering scores: legal ones other than the hash
    /// move, without those whose gain cannot lift the evaluation to `alpha` (outside the
    /// endgame), and without those that lose material in the exchange. The position is the
    /// same afterwards.
    fn score_captures(&self, state: &mut State, mov_list: &[u32; def::MAX_CAP_COUNT], hash_mov: u32,
        in_endgame: bool, static_eval: i32, alpha: i32) -> (r: Vec<(u32, i64)>)
        requires
            old(state).wf(),
            can_probe(old(state)@, *old(state).bitmask),
        ensures
            final(state)@ == old(state)@,
            final(state).zob_keys == old(state).zob_keys,
            final(state).bitmask == old(state).bitmask,
    {
        let ghost m = state@;
        let ghost keys = state.zob_keys@;
        let ghost s0 = *state;
        let mut scored: Vec<(u32, i64)> = Vec::new();
        let mut i: usize = 0;
        while i < def::MAX_CAP_COUNT
            invariant
                state@ == m,
                state.zob_keys == s0.zob_keys,
                state.bitmask == s0.bitmask,
                m == s0@,
                keys == s0.zob_keys@,
                s0.wf(),
                can_probe(m, *s0.bitmask),
            decreases def::MAX_CAP_COUNT - i,
        {
            let mov = mov_list[i];
            if mov == 0 {
                break;
            }
            i = i + 1;
            if mov == hash_mov {
                continue;
            }
            let (from, to, tp, promo) = crate::util::decode_u32_mov(mov);
            if !playable(state, from, to, tp, promo) {
                continue;
            }
            proof {
                lemma_undo_mov_restores(m, keys, from as int, to as int, tp, promo);
            }
            state.do_mov(from, to, tp, promo);
            let illegal = !probe_ready(state) || mov_table::is_in_check(state, def::get_opposite_player(state.player));
            state.undo_mov(from, to, tp);
            if illegal {
                continue;
            }
            if !in_endgame {
                let gain = self.evaluator.val_of(state.squares[to]) as i64 + self.evaluator.val_of(promo) as i64;
                if static_eval as i64 + gain + (self.params.delta_margin as i64) < (alpha as i64) {
                    continue;
                }
            }
            let mvv_lva_score = mvv_lva_wide(&self.evaluator, state, from, to, promo);
            if mvv_lva_score > WINNING_EXCHANGE as i64 {
                scored.push((mov, mvv_lva_score));
            } else {
                match self.see_checked(state, from, to, tp, promo) {
                    Some(see_score) => {
                        if see_score < EQUAL_EXCHANGE {
                            continue;
                        }
                        scored.push((mov, see_score as i64));
                    },
                    None => {
                        scored.push((mov, mvv_lva_score));
                    },
                }
            }
        }
        sort_scored(&mut scored);
        scored
    }
}

/// The number of the full move as the position's history counts it.
pub open spec fn full_mov_count_of(m: StateModel) -> int {
    let n = m.history_mov_stack.len() / 2 + 1;
    if n > u16::MAX { u16::MAX as int } else { n as int }
}

pub fn full_mov_count(state: &State) -> (r: u16)
    ensures
        r == full_mov_count_of(state@),
{
    let n = state.history_mov_stack.len() / 2;
    if n >= u16::MAX as usize { u16::MAX } else { (n + 1) as u16 }
}

/// What a score on the principal variation loses for the moves played since the root:
/// the full moves, and the reversible moves added to the root's count, held within 0 and
/// `TERM_VAL`.
pub open spec fn time_discount_of(m: StateModel, root_full: u16, root_half: u16) -> int {
    let half = m.non_cap_mov_count as int - root_half as int;
    let d = full_mov_count_of(m) - root_full as int + (if half < 0 { 0 } else { half });
    if d < 0 { 0 } else if d > TERM_VAL { TERM_VAL as int } else { d }
}

/// A score on the principal variation moved toward zero by the discount (and a score
/// below it moved up).
pub open spec fn discounted(score: int, d: int) -> int {
    if score > d { score - d } else if score < d { score + d } else { 0 }
}

/// The last move played, if any, has both squares on the board.
pub fn last_mov_in_range(state: &State) -> (r: bool)
    ensures
        r == last_mov_ok(state@),
{
    let n = state.history_mov_stack.len();
    if n == 0 {
        return true;
    }
    let (_p, f, t) = state.history_mov_stack[n - 1];
    f < 64 && t < 64
}

/// A record of a finished iteration of the search.
pub struct SearchInfo {
    pub depth: u8,
    pub score: i32,
    pub seldepth: u8,
    pub nodes: u64,
    pub time_millis: u128,
    pub hashfull_permill: u64,
    pub best_mov: u32,
}

/// The position after a move keeps what the search needs of it.
pub open spec fn probe_ok_model(n: StateModel, keys: Seq<Vec<u64>>, bm: BitMask) -> bool {
    &&& keys_ok(keys)
    &&& index_masks_ok(bm.index_masks)
    &&& forall|i: int| 0 <= i < 64 ==> #[trigger] def::is_square_code(n.squares[i])
    &&& can_probe(n, bm)
    &&& (n.cas_rights as int) < CASTLING_RIGHTS_COMB_SIZE
}

/// A legal move: it can be played and taken back, and afterwards the mover's king is not
/// attacked.
pub open spec fn legal_after(m: StateModel, keys: Seq<Vec<u64>>, bm: BitMask, mov: u32) -> bool {
    let (f, t, tp, pr) = (mov_from(mov) as int, mov_to(mov) as int, mov_tp(mov), mov_promo(mov));
    &&& can_do_mov(m, f, t, tp, pr)
    &&& can_restore(m, f, t, tp)
    &&& probe_ok_model(after(m, keys, mov), keys, bm)
    &&& !in_check(after(m, keys, mov), bm, m.player)
}

/// The side to move has no legal move among those the generator lists.
pub open spec fn no_legal_movs(m: StateModel, keys: Seq<Vec<u64>>, bm: BitMask) -> bool {
    let u = until_empty(reg_movs(m, bm));
    forall|j: int| 0 <= j < u.len() ==> !#[trigger] legal_after(m, keys, bm, u[j])
}

/// The move the hash table holds for the root position when it is a generated, legal move,
/// else 0.
pub open spec fn root_mov_of(engine: SearchEngine, state: State, zob_keys: ZobKeys) -> u32 {
    let m = state@;
    match lookup(engine.depth_preferred_hash_table.entries(), engine.depth_preferred_hash_table.mask(),
        position_key(m, zob_keys), state.hash_key) {
        Some(e) => if e.mov != 0 && reg_movs(m, *state.bitmask).contains(e.mov)
            && legal_after(m, state.zob_keys@, *state.bitmask, e.mov) { e.mov } else { 0 },
        None => 0,
    }
}

/// The mate score at `ply` plies from the root when in check, else the stalemate score.
pub open spec fn terminal_score(in_check: bool, ply: u8) -> int {
    if in_check { -MATE_VAL + ply } else { 0 }
}

impl SearchEngine {
    /// Counts a node; at every 1024th node asks the clock, and stops the search when the
    /// time is up or a stop was requested.
    fn count_node(&mut self, clock: &SearchClock) -> (stop: bool)
        ensures
            keeps_setup(*old(self), *final(self)) || (final(self).aborted && stop),
            final(self).evaluator == old(self).evaluator,
            final(self).params == old(self).params,
            final(self).root_full_mov_count == old(self).root_full_mov_count,
            final(self).root_half_mov_count == old(self).root_half_mov_count,
            old(self).aborted ==> final(self).aborted,
            final(self).depth_preferred_hash_table == old(self).depth_preferred_hash_table,
            final(self).null_mov_count == old(self).null_mov_count,
            stop ==> final(self).aborted,
            !stop ==> final(self).aborted == old(self).aborted,
            final(self).node_count == next_count(old(self).node_count),
            final(self).infos == old(self).infos,
            clock_quiet(old(self).node_count) ==> !stop,
    {
        if self.node_count < u64::MAX {
            self.node_count = self.node_count + 1;
        }
        if self.node_count & TIME_CHECK_INTERVAL == 0 && clock.time_up() {
            self.aborted = true;
            return true;
        }
        false
    }

    /// The discount of a score on the principal variation (see `time_discount_of`).
    fn time_discount(&self, state: &State) -> (r: i32)
        ensures
            r == time_discount_of(state@, self.root_full_mov_count, self.root_half_mov_count),
            0 <= r <= TERM_VAL,
    {
        let half = state.non_cap_mov_count as i64 - self.root_half_mov_count as i64;
        let d = full_mov_count(state) as i64 - self.root_full_mov_count as i64 + if half < 0 { 0 } else { half };
        if d < 0 { 0 } else if d > TERM_VAL as i64 { TERM_VAL } else { d as i32 }
    }

    /// The alpha-beta search of the position to `depth` (negamax with principal-variation
    /// search): hash-table cut-offs, razoring, null-move pruning, internal iterative
    /// deepening, check, mate-threat and singular extensions, multi-cut and futility
    /// pruning, late-move reductions, and the killer, history and counter-move heuristics
    /// for the order of the moves. At depth 0 it goes on with the quiescence search. The
    /// position is the same afterwards, and the score lies within the mate scores. Where it
    /// returns without trying a move (see `ab_early`), and for a position without a legal move
    /// (the mate or stalemate score), the score is stated exactly when counting the node does
    /// not make it ask the clock. The score of a search that tries moves is not stated: it
    /// rests on the hash, killer, history, butterfly and counter-move tables that the search
    /// rewrites as it goes.
    #[verifier::rlimit(100)]
    pub fn ab_search(&mut self, state: &mut State, zob_keys: &ZobKeys, clock: &SearchClock, in_check: bool,
        on_extend: bool, alpha: i32, beta: i32, depth: u8, ply: u8) -> (r: i32)
        requires
            search_ready(*old(self), *old(state), *zob_keys),
            -MATE_VAL <= alpha < beta <= MATE_VAL,
            in_check == mov_table::in_check(old(state)@, *old(state).bitmask, old(state).player),
        ensures
            search_kept(*old(self), *final(self), *old(state), *final(state)),
            -MATE_VAL <= r <= MATE_VAL,
            no_legal_movs(old(state)@, old(state).zob_keys@, *old(state).bitmask) && 1 <= depth && ply < 255
                && beta - alpha > 1
                && depth < old(self).params.internal_iterative_deepening_depth
                && lookup(old(self).depth_preferred_hash_table.entries(), old(self).depth_preferred_hash_table.mask(),
                    position_key(old(state)@, *zob_keys), old(state).hash_key) is None
                && !(ply > 0 && old(self).null_mov_count == 0 && crate::state::is_draw_spec(old(state)@))
                && !(ply > 0 && crate::eval::material_draw(*old(state)))
                ==> r == terminal_score(in_check, ply) || final(self).aborted,
            no_legal_movs(old(state)@, old(state).zob_keys@, *old(state).bitmask) && 1 <= depth && ply < 255
                && beta - alpha > 1
                && depth < old(self).params.internal_iterative_deepening_depth
                && lookup(old(self).depth_preferred_hash_table.entries(), old(self).depth_preferred_hash_table.mask(),
                    position_key(old(state)@, *zob_keys), old(state).hash_key) is None
                && !(ply > 0 && old(self).null_mov_count == 0 && crate::state::is_draw_spec(old(state)@))
                && !(ply > 0 && crate::eval::material_draw(*old(state)))
                && !old(self).aborted && clock_quiet(old(self).node_count)
                ==> r == terminal_score(in_check, ply) && !final(self).aborted,
            !old(self).aborted && clock_quiet(old(self).node_count)
                && ab_early(*old(self), *old(state), *zob_keys, alpha, beta, depth, ply) is Some
                ==> r == ab_early(*old(self), *old(state), *zob_keys, alpha, beta, depth, ply)->0 && !final(self).aborted,
        decreases 256 - ply as int, (if depth == 0 { 5int } else { 3int }), depth as int,
    {
        let ghost m = state@;
        let ghost keys = state.zob_keys@;
        let ghost e0 = *self;
        let mut alpha = alpha;

        if self.count_node(clock) {
            return alpha;
        }

        if ply > 0 && self.null_mov_count == 0 && state.is_draw() {
            return 0;
        }

        let on_pv = beta - alpha > 1;

        if ply == 255 {
            return self.evaluator.eval_bounded(state);
        }

        if depth == 0 {
            let score = self.q_search(state, zob_keys, clock, alpha, beta, ply);
            if !on_pv {
                return score;
            }
            let d = self.time_discount(state);
            return if score > d { score - d } else if score < d { score + d } else { 0 };
        }

        let mut hash_mov: u32 = 0;
        let mut is_singular_mov = false;
        let static_eval: i32;

        proof {
            lemma_lookup_bounded(self.depth_preferred_hash_table, position_key(m, *zob_keys), m.hash_key);
        }
        match self.get_hash(state, zob_keys) {
            Some(entry) => {
                hash_mov = entry.mov;
                static_eval = entry.eval;
                if !on_pv && entry.depth >= depth {
                    let hash_score = adjust_hash_score(entry.score, ply);
                    if entry.flag == HASH_TYPE_EXACT {
                        return hash_score;
                    } else if entry.flag == HASH_TYPE_BETA {
                        if hash_score >= beta {
                            return hash_score;
                        }
                    } else if entry.flag == HASH_TYPE_ALPHA {
                        if hash_score <= alpha {
                            return hash_score;
                        }
                    }
                }
                if on_pv && entry.flag == HASH_TYPE_BETA {
                    is_singular_mov = true;
                }
            },
            None => {
                if self.evaluator.is_material_draw(state) && ply > 0 {
                    return 0;
                }
                static_eval = self.evaluator.eval_bounded(state);
            },
        }

        let mut under_mate_threat = false;

        if !on_pv && !on_extend && !in_check {
            if depth <= self.params.razoring_depth && !has_promoting_pawn(state, state.player) {
                if static_eval as i64 + wide_product(self.params.razoring_margin, depth) <= alpha as i64 {
                    return self.q_search(state, zob_keys, clock, alpha, beta, ply);
                }
            }

            if depth >= self.params.null_move_pruning_depth && static_eval >= beta {
                let depth_reduction: u16 = if depth > self.params.null_move_pruning_depth {
                    self.params.null_move_pruning_reduction as u16 + 1
                } else {
                    self.params.null_move_pruning_reduction as u16
                };
                if (depth as u16) >= depth_reduction + 1 && self.null_mov_count < 255 {
                    self.null_mov_count = self.null_mov_count + 1;
                    state.do_null_mov();
                    let mut scout_score: i32 = 0;
                    let mut searched = false;
                    if probe_ready(state) && !mov_table::is_in_check(state, state.player) {
                        scout_score = -self.ab_search(state, zob_keys, clock, false, false, -beta, -beta + 1,
                            (depth as u16 - depth_reduction - 1) as u8, ply + 1);
                        searched = true;
                    }
                    state.undo_null_mov();
                    proof {
                        crate::state::lemma_null_mov_round_trip(m);
                    }
                    if self.null_mov_count > 0 {
                        self.null_mov_count = self.null_mov_count - 1;
                    }

                    if self.aborted {
                        return alpha;
                    }

                    if searched {
                        if scout_score >= beta && scout_score != 0 && scout_score < TERM_VAL {
                            return beta;
                        } else if scout_score < -TERM_VAL {
                            under_mate_threat = true;
                        }
                    }
                }
            }
        }

        if on_pv && hash_mov == 0 && depth >= self.params.internal_iterative_deepening_depth
            && depth > self.params.internal_iterative_deepening_reduction
            && self.params.internal_iterative_deepening_reduction > 0 {
            let iid_depth = depth - self.params.internal_iterative_deepening_reduction;
            assert(1 <= iid_depth < depth);
            self.ab_search(state, zob_keys, clock, in_check, on_extend, alpha, beta, iid_depth, ply);

            if self.aborted {
                return alpha;
            }

            proof {
                lemma_lookup_bounded(self.depth_preferred_hash_table, position_key(m, *zob_keys), m.hash_key);
            }
            match self.get_hash(state, zob_keys) {
                Some(entry) => {
                    hash_mov = entry.mov;
                    if entry.flag == HASH_TYPE_BETA {
                        is_singular_mov = true;
                    }
                },
                None => {},
            }
        }

        self.ab_movs(state, zob_keys, clock, in_check, on_extend, alpha, beta, depth, ply,
            hash_mov, is_singular_mov, under_mate_threat, static_eval)
    }
}

/// The side has a pawn one step from promoting.
pub open spec fn promoting_pawn(state: State, player: u8) -> bool {
    if player == def::PLAYER_W {
        state.bitboard.w_pawn & 0x00ff_0000_0000_0000 != 0
    } else {
        state.bitboard.b_pawn & 0x0000_0000_0000_ff00 != 0
    }
}

pub fn has_promoting_pawn(state: &State, player: u8) -> (r: bool)
    ensures
        r == promoting_pawn(*state, player),
{
    if player == def::PLAYER_W {
        state.bitboard.w_pawn & 0x00ff_0000_0000_0000 != 0
    } else {
        state.bitboard.b_pawn & 0x0000_0000_0000_ff00 != 0
    }
}

impl SearchEngine {
    /// Records a quiet move that caused a cut-off in the history, killer and counter-move
    /// tables, skipping a table whose entry would overflow.
    fn record_cut(&mut self, state: &State, ply: u8, mov: u32, score: i32, depth: u8, from: usize, to: usize)
        requires
            def::is_player(state.player),
        ensures
            final(self).depth_preferred_hash_table == old(self).depth_preferred_hash_table,
            keeps_setup(*old(self), *final(self)),
            final(self).null_mov_count == old(self).null_mov_count,
    {
        if from < 64 && to < 64 {
            let p = state.player as usize - 1;
            let d = depth as i64;
            assert(d * d <= 65025 && d * d * d <= 255 * 255 * 255) by (nonlinear_arith)
                requires
                    0 <= d <= 255,
            ;
            if self.history_table[p][from][to] as i64 + d * d * d <= i32::MAX as i64 {
                self.update_history_table(state.player, depth, from, to);
            }
        }
        self.update_killer_table(ply, mov, score, depth);
        if last_mov_in_range(state) {
            self.update_counter_mov_table(state, mov);
        }
    }

    /// Counts a quiet move that was searched before the move that caused a cut-off.
    fn record_tried(&mut self, player: u8, from: usize, to: usize)
        requires
            def::is_player(player),
        ensures
            final(self).depth_preferred_hash_table == old(self).depth_preferred_hash_table,
            keeps_setup(*old(self), *final(self)),
            final(self).null_mov_count == old(self).null_mov_count,
    {
        if from < 64 && to < 64 && self.butterfly_table[player as usize - 1][from][to] < i32::MAX {
            self.update_butterfly_table(player, from, to);
        }
    }

    /// The ordering score of a quiet move by the history and butterfly tables.
    fn history_order(&self, player: u8, from: usize, to: usize) -> (r: (i32, i32))
        requires
            def::is_player(player),
            from < 64,
            to < 64,
    {
        (self.history_table[player as usize - 1][from][to], self.butterfly_table[player as usize - 1][from][to])
    }

    /// The legal moves of the list, up to its first empty entry and other than the hash
    /// move, with their ordering scores: captures and promotions first by MVV-LVA or static
    /// exchange, then the counter move, the killers, checks, passed pawns, and the other
    /// quiet moves by history; quiet moves without history that were tried often are left
    /// out off the principal variation. Also the number of legal moves, counting from
    /// `legal_start`. The position is the same afterwards.
    #[verifier::rlimit(60)]
    fn order_movs(&self, state: &mut State, mov_list: &[u32; def::MAX_MOV_COUNT], hash_mov: u32, on_pv: bool,
        on_extend: bool, in_check: bool, ply: u8, legal_start: usize) -> (r: (Vec<OrderedMov>, usize))
        requires
            old(state).wf(),
            can_probe(old(state)@, *old(state).bitmask),
            legal_start <= 1,
        ensures
            final(state)@ == old(state)@,
            final(state).zob_keys == old(state).zob_keys,
            final(state).bitmask == old(state).bitmask,
            r.1 <= legal_start + def::MAX_MOV_COUNT,
            r.0@.len() <= def::MAX_MOV_COUNT,
            (forall|j: int| 0 <= j < until_empty(mov_list@).len() ==> #[trigger] until_empty(mov_list@)[j] == hash_mov
                || !legal_after(old(state)@, old(state).zob_keys@, *old(state).bitmask, until_empty(mov_list@)[j]))
                ==> r.1 == legal_start,
    {
        let ghost m = state@;
        let ghost keys = state.zob_keys@;
        let ghost s0 = *state;
        let (primary_killer, secondary_killer) = self.get_killer_mov(ply);
        let counter_mov = if last_mov_in_range(state) { self.get_counter_mov(state) } else { 0 };
        let player = state.player;
        let base = self.params.sorting_capture_base_val as i64;
        let mut list: Vec<OrderedMov> = Vec::new();
        let mut legal_mov_count: usize = legal_start;
        let mut i: usize = 0;
        let ghost bmv = *state.bitmask;
        let ghost u = until_empty(mov_list@);
        proof {
            lemma_until_empty(mov_list@);
        }
        while i < def::MAX_MOV_COUNT
            invariant
                u == until_empty(mov_list@),
                u.len() <= def::MAX_MOV_COUNT,
                forall|k: int| 0 <= k < u.len() ==> #[trigger] u[k] == mov_list@[k] && mov_list@[k] != 0,
                u.len() < def::MAX_MOV_COUNT ==> mov_list@[u.len() as int] == 0,
                i <= u.len(),
                bmv == *s0.bitmask,
                (forall|j: int| 0 <= j < i ==> #[trigger] u[j] == hash_mov || !legal_after(m, keys, bmv, u[j]))
                    ==> legal_mov_count == legal_start,
                state@ == m,
                state.zob_keys == s0.zob_keys,
                state.bitmask == s0.bitmask,
                state.player == player,
                m == s0@,
                keys == s0.zob_keys@,
                s0.wf(),
                can_probe(m, *s0.bitmask),
                i <= def::MAX_MOV_COUNT,
                legal_mov_count <= legal_start + i,
                legal_start <= 1,
                list@.len() <= i,
                base == self.params.sorting_capture_base_val as i64,
            ensures
                (forall|j: int| 0 <= j < u.len() ==> #[trigger] u[j] == hash_mov || !legal_after(m, keys, bmv, u[j]))
                    ==> legal_mov_count == legal_start,
                state@ == m,
                state.zob_keys == s0.zob_keys,
                state.bitmask == s0.bitmask,
                legal_mov_count <= legal_start + def::MAX_MOV_COUNT,
                list@.len() <= def::MAX_MOV_COUNT,
            decreases def::MAX_MOV_COUNT - i,
        {
            let mov = mov_list[i];
            proof {
                if i < u.len() {
                    assert(u[i as int] == mov_list@[i as int]);
                }
            }
            if mov == 0 {
                assert(i == u.len());
                break;
            }
            assert(i < u.len());
            assert(u[i as int] == mov);
            i = i + 1;
            if mov == hash_mov {
                continue;
            }
            let (from, to, tp, promo) = crate::util::decode_u32_mov(mov);
            if !playable(state, from, to, tp, promo) {
                assert(!legal_after(m, keys, bmv, mov));
                continue;
            }
            proof {
                lemma_undo_mov_restores(m, keys, from as int, to as int, tp, promo);
            }
            state.do_mov(from, to, tp, promo);
            let ghost child = state@;
            assert(child == after(m, keys, mov));
            let ready = probe_ready(state);
            let mut gives_check = false;
            let mut illegal_mov = true;
            let mut is_passer = false;
            if ready {
                gives_check = mov_table::is_in_check(state, state.player);
                illegal_mov = mov_table::is_in_check(state, def::get_opposite_player(state.player));
                is_passer = is_passed_pawn(state, state.squares[to], to);
            }
            state.undo_mov(from, to, tp);
            assert(illegal_mov ==> !legal_after(m, keys, bmv, mov));
            assert(!illegal_mov ==> legal_after(m, keys, bmv, mov));

            if !illegal_mov {
                legal_mov_count = legal_mov_count + 1;
                let mut sort_score: i64 = 0;
                if state.squares[to] != 0 || promo != 0 {
                    let mvv_lva_score = mvv_lva_wide(&self.evaluator, state, from, to, promo);
                    let bonus = if gives_check { self.params.sorting_checker_bonus as i64 } else { 0 };
                    if mvv_lva_score > WINNING_EXCHANGE as i64 {
                        sort_score = base + mvv_lva_score + bonus;
                    } else {
                        let see_score = match self.see_checked(state, from, to, tp, promo) {
                            Some(v) => v as i64,
                            None => mvv_lva_score,
                        };
                        sort_score = base + see_score + bonus;
                    }
                } else if mov == counter_mov {
                    sort_score = base + self.params.sorting_counter_move_val as i64;
                } else if mov == primary_killer {
                    sort_score = base + self.params.sorting_killer_primary_val as i64;
                } else if mov == secondary_killer {
                    sort_score = base + self.params.sorting_killer_secondary_val as i64;
                } else if gives_check {
                    sort_score = base + SORTING_CHECKER_VAL;
                } else if is_passer {
                    sort_score = base + SORTING_PASSER_VAL;
                } else {
                    let (history_score, butterfly_score) = self.history_order(player, from, to);
                    if history_score != 0 {
                        if history_score > butterfly_score && butterfly_score > 0 {
                            let h = history_score as i64;
                            let b = butterfly_score as i64;
                            assert(0 <= h / b <= h) by (nonlinear_arith)
                                requires
                                    h > 0,
                                    b > 0,
                            ;
                            sort_score = self.params.sorting_good_history_base_val as i64 + h / b;
                        } else {
                            sort_score = self.params.sorting_normal_history_base_val as i64 + history_score as i64 - butterfly_score as i64;
                        }
                    } else {
                        if !on_pv && !on_extend && !in_check && legal_mov_count > 0
                            && butterfly_score > self.params.butterfly_pruning_count {
                            continue;
                        }
                        sort_score = crate::mov_ordering::get_square_ordering_val(state.squares[from], from, to) as i64;
                    }
                }
                list.push(OrderedMov { mov, sort_score, gives_check, is_passer });
            }
        }
        sort_ordered(&mut list);
        (list, legal_mov_count)
    }
}

impl SearchEngine {
    /// The move loop of `ab_search`: the hash move first, then the ordered moves, with
    /// multi-cut pruning, futility pruning, extensions, late-move reductions and the
    /// principal-variation re-searches, the singular extension of the hash move, and the
    /// result stored in the hash table. Without a legal move: the mate score when in check,
    /// else the stalemate score. The position is the same afterwards.
    #[verifier::rlimit(100)]
    fn ab_movs(&mut self, state: &mut State, zob_keys: &ZobKeys, clock: &SearchClock, in_check: bool,
        on_extend: bool, alpha: i32, beta: i32, depth: u8, ply: u8, hash_mov: u32, is_singular: bool,
        under_mate_threat: bool, static_eval: i32) -> (r: i32)
        requires
            search_ready(*old(self), *old(state), *zob_keys),
            -MATE_VAL <= alpha < beta <= MATE_VAL,
            -MATE_VAL <= static_eval <= MATE_VAL,
            in_check == mov_table::in_check(old(state)@, *old(state).bitmask, old(state).player),
            1 <= depth,
            ply < 255,
        ensures
            search_kept(*old(self), *final(self), *old(state), *final(state)),
            -MATE_VAL <= r <= MATE_VAL,
            hash_mov == 0 && no_legal_movs(old(state)@, old(state).zob_keys@, *old(state).bitmask)
                ==> r == terminal_score(in_check, ply) && final(self).aborted == old(self).aborted,
        decreases 256 - ply as int, 1int, 0int,
    {
        let ghost m = state@;
        let ghost keys = state.zob_keys@;
        let ghost e0 = *self;
        let ghost s0 = *state;
        let mut alpha = alpha;
        let original_alpha = alpha;
        let on_pv = beta - alpha > 1;
        let mut is_singular_mov = is_singular;

        let mut mov_count: usize = 0;
        let mut best_mov = hash_mov;
        let mut pv_found = false;
        let mut pv_extended = false;
        let mut legal_start: usize = 0;

        if hash_mov != 0 {
            let (from, to, tp, promo) = crate::util::decode_u32_mov(hash_mov);
            if playable(state, from, to, tp, promo) {
                mov_count = 1;
                legal_start = 1;
                let is_capture = state.squares[to] != 0;
                proof {
                    lemma_undo_mov_restores(m, keys, from as int, to as int, tp, promo);
                }
                state.do_mov(from, to, tp, promo);
                if probe_ready(state) {
                    let gives_check = mov_table::is_in_check(state, state.player);
                    let mut d = depth;
                    if (gives_check || under_mate_threat) && d < 255 {
                        d = d + 1;
                        pv_extended = true;
                    }
                    let score = -self.ab_search(state, zob_keys, clock, gives_check, pv_extended, -beta, -alpha, d - 1, ply + 1);
                    state.undo_mov(from, to, tp);

                    if self.aborted {
                        return alpha;
                    }

                    if score >= beta {
                        if !is_capture && promo == 0 {
                            self.record_cut(state, ply, hash_mov, score, d, from, to);
                        }
                        self.store(state, zob_keys, d, ply, HASH_TYPE_BETA, score, static_eval, hash_mov);
                        return score;
                    }

                    if score > alpha {
                        alpha = score;
                        best_mov = hash_mov;
                        pv_found = true;
                    }

                    if score as i64 - (self.params.singular_extension_margin as i64) <= (alpha as i64) {
                        is_singular_mov = false;
                    }
                } else {
                    state.undo_mov(from, to, tp);
                }
            }
        }

        let mut mov_list: [u32; def::MAX_MOV_COUNT] = [0; def::MAX_MOV_COUNT];
        proof {
            lemma_mov_lists_fit(state@, *state.bitmask);
        }
        let ghost zeros = mov_list@;
        assert(forall|j: int| 0 <= j < def::MAX_MOV_COUNT ==> #[trigger] zeros[j] == 0);
        mov_table::gen_reg_mov_list(state, &mut mov_list);
        proof {
            let all = reg_movs(m, *s0.bitmask);
            let l = mov_list@;
            let rest = l.subrange(all.len() as int, def::MAX_MOV_COUNT as int);
            assert(l =~= all + rest);
            assert(rest.len() > 0 ==> rest[0] == zeros[all.len() as int]);
            lemma_until_empty_padded(all, rest);
            lemma_until_empty(all);
            if hash_mov == 0 && no_legal_movs(m, keys, *s0.bitmask) {
                let u = until_empty(l);
                assert(u == until_empty(all));
                assert forall|j: int| 0 <= j < u.len() implies #[trigger] u[j] == hash_mov
                    || !legal_after(m, keys, *s0.bitmask, u[j]) by {
                    assert(!legal_after(m, keys, *s0.bitmask, until_empty(all)[j]));
                }
            }
        }

        let (ordered_mov_list, legal_mov_count) = self.order_movs(state, &mov_list, hash_mov, on_pv, on_extend,
            in_check, ply, legal_start);

        if legal_mov_count == 0 {
            if !in_check {
                return 0;
            }
            return -MATE_VAL + ply as i32;
        } else if legal_mov_count == 1 && ply == 0 {
            if hash_mov != 0 {
                self.has_one_legal_mov = true;
                return alpha;
            }
        }

        if !on_pv && !on_extend && !in_check && !under_mate_threat && depth >= MULTI_CUT_PRUNING_DEPTH
            && depth > MULTI_CUT_PRUNING_REDUCTION {
            if self.multi_cut(state, zob_keys, clock, &ordered_mov_list, beta, depth, ply) {
                return beta;
            }
            if self.aborted {
                return alpha;
            }
        }

        let mut k: usize = 0;
        while k < ordered_mov_list.len()
            invariant
                search_ready(*self, *state, *zob_keys),
                search_kept(e0, *self, s0, *state),
                e0 == *old(self),
                s0 == *old(state),
                -MATE_VAL <= alpha < beta <= MATE_VAL,
                -MATE_VAL <= original_alpha <= alpha,
                -MATE_VAL <= static_eval <= MATE_VAL,
                in_check == mov_table::in_check(s0@, *s0.bitmask, s0.player),
                on_pv == (beta - original_alpha > 1),
                m == s0@,
                keys == s0.zob_keys@,
                1 <= depth,
                ply < 255,
                mov_count <= k + 1,
                !(hash_mov == 0 && no_legal_movs(m, keys, *s0.bitmask)),
                k <= ordered_mov_list.len(),
                ordered_mov_list.len() <= def::MAX_MOV_COUNT + 1,
            decreases ordered_mov_list.len() - k,
        {
            mov_count = mov_count + 1;
            let mov = ordered_mov_list[k].mov;
            let gives_check = ordered_mov_list[k].gives_check;
            let is_passer = ordered_mov_list[k].is_passer;
            k = k + 1;

            let (from, to, tp, promo) = crate::util::decode_u32_mov(mov);
            if !playable(state, from, to, tp, promo) {
                continue;
            }
            let is_capture = state.squares[to] != 0;

            if mov_count > 1 && !gives_check && !in_check && !under_mate_threat && !is_passer
                && depth <= self.params.futility_pruning_depth {
                let margin = wide_product(self.params.futility_pruning_margin, depth);
                let taken = self.evaluator.val_of(state.squares[to]) as i64;
                let promoted = self.evaluator.val_of(promo) as i64;
                if static_eval as i64 + taken + promoted + margin <= alpha as i64 {
                    continue;
                }
            }

            proof {
                lemma_undo_mov_restores(m, keys, from as int, to as int, tp, promo);
            }
            state.do_mov(from, to, tp, promo);
            if !probe_ready(state) {
                state.undo_mov(from, to, tp);
                continue;
            }
            let child_check = mov_table::is_in_check(state, state.player);

            let mut d = depth;
            let mut extended = false;
            if (gives_check || under_mate_threat) && d < 255 {
                d = d + 1;
                extended = true;
            }

            let score = self.pvs_child(state, zob_keys, clock, child_check, extended, alpha, beta, d, ply + 1,
                mov_count, on_pv, pv_found);

            state.undo_mov(from, to, tp);

            if self.aborted {
                return alpha;
            }

            if score >= beta {
                if !is_capture && promo == 0 {
                    self.record_cut(state, ply, mov, score, d, from, to);

                    if mov_count > 1 {
                        let tried_end = if hash_mov != 0 { mov_count - 2 } else { mov_count - 1 };
                        if hash_mov != 0 {
                            let (hf, ht, _htp, _hpromo) = crate::util::decode_u32_mov(hash_mov);
                            if ht < 64 && state.squares[ht] == 0 && promo == 0 {
                                self.record_tried(state.player, hf, ht);
                            }
                        }
                        let mut index: usize = 0;
                        while index < tried_end && index < ordered_mov_list.len()
                            invariant
                                search_ready(*self, *state, *zob_keys),
                                search_kept(e0, *self, s0, *state),
                e0 == *old(self),
                s0 == *old(state),
                                def::is_player(state.player),
                            decreases tried_end - index,
                        {
                            let (pf, pt, _ptp, _ppromo) = crate::util::decode_u32_mov(ordered_mov_list[index].mov);
                            if pt < 64 && state.squares[pt] == 0 && promo == 0 {
                                self.record_tried(state.player, pf, pt);
                            }
                            index = index + 1;
                        }
                    }
                }

                self.store(state, zob_keys, d, ply, HASH_TYPE_BETA, score, static_eval, mov);
                return score;
            }

            if score > alpha {
                alpha = score;
                pv_found = true;
                best_mov = mov;
                is_singular_mov = false;
            }
        }

        if is_singular_mov && !pv_extended && depth < 255 && hash_mov != 0 {
            let d = depth + 1;
            let (from, to, tp, promo) = crate::util::decode_u32_mov(hash_mov);
            if playable(state, from, to, tp, promo) {
                let is_capture = state.squares[to] != 0;
                proof {
                    lemma_undo_mov_restores(m, keys, from as int, to as int, tp, promo);
                }
                state.do_mov(from, to, tp, promo);
                if probe_ready(state) {
                    let gives_check = mov_table::is_in_check(state, state.player);
                    let score = -self.ab_search(state, zob_keys, clock, gives_check, true, -beta, -alpha, d - 1, ply + 1);
                    state.undo_mov(from, to, tp);

                    if self.aborted {
                        return alpha;
                    }

                    if score >= beta {
                        if !is_capture && promo == 0 {
                            self.record_cut(state, ply, hash_mov, score, d, from, to);
                        }
                        self.store(state, zob_keys, d, ply, HASH_TYPE_BETA, score, static_eval, hash_mov);
                        return score;
                    }

                    if score > alpha {
                        self.store(state, zob_keys, d, ply, HASH_TYPE_EXACT, score, static_eval, hash_mov);
                        return score;
                    }
                } else {
                    state.undo_mov(from, to, tp);
                }
            }
        }

        if alpha > original_alpha {
            self.store(state, zob_keys, depth, ply, HASH_TYPE_EXACT, alpha, static_eval, best_mov);
        } else {
            self.store(state, zob_keys, depth, ply, HASH_TYPE_ALPHA, alpha, static_eval, best_mov);
        }

        alpha
    }

    /// Multi-cut pruning: the first moves of the list searched to a reduced depth with a
    /// null window at `beta`; true when enough of them fail high. The position is the same
    /// afterwards.
    fn multi_cut(&mut self, state: &mut State, zob_keys: &ZobKeys, clock: &SearchClock, list: &Vec<OrderedMov>,
        beta: i32, depth: u8, ply: u8) -> (r: bool)
        requires
            search_ready(*old(self), *old(state), *zob_keys),
            -MATE_VAL < beta <= MATE_VAL,
            depth > MULTI_CUT_PRUNING_REDUCTION,
            ply < 255,
        ensures
            search_kept(*old(self), *final(self), *old(state), *final(state)),
        decreases 256 - ply as int, 0int, 0int,
    {
        let ghost m = state@;
        let ghost keys = state.zob_keys@;
        let ghost e0 = *self;
        let ghost s0 = *state;
        let mut cut_count: usize = 0;
        let mut k: usize = 0;
        while k < list.len() && k < MULTI_CUT_PRUNING_MOVE_COUNT
            invariant
                search_ready(*self, *state, *zob_keys),
                search_kept(e0, *self, s0, *state),
                e0 == *old(self),
                s0 == *old(state),
                m == s0@,
                keys == s0.zob_keys@,
                -MATE_VAL < beta <= MATE_VAL,
                depth > MULTI_CUT_PRUNING_REDUCTION,
                ply < 255,
                cut_count <= k,
            decreases list.len() - k,
        {
            let mov = list[k].mov;
            k = k + 1;
            let (from, to, tp, promo) = crate::util::decode_u32_mov(mov);
            if !playable(state, from, to, tp, promo) {
                continue;
            }
            proof {
                lemma_undo_mov_restores(m, keys, from as int, to as int, tp, promo);
            }
            state.do_mov(from, to, tp, promo);
            if !probe_ready(state) {
                state.undo_mov(from, to, tp);
                continue;
            }
            let child_check = mov_table::is_in_check(state, state.player);
            let scout_score = -self.ab_search(state, zob_keys, clock, child_check, false, -beta, -beta + 1,
                depth - MULTI_CUT_PRUNING_REDUCTION - 1, ply + 1);
            state.undo_mov(from, to, tp);

            if self.aborted {
                return false;
            }

            if scout_score >= beta {
                cut_count = cut_count + 1;
                if cut_count >= MULTI_CUT_PRUNING_CUT_COUNT {
                    return true;
                }
            }
        }
        false
    }
}

impl SearchEngine {
    /// The move the hash table holds for the root position when it is one of the moves the
    /// generator lists and legal, else 0. The position is the same afterwards.
    pub fn root_best_mov(&self, state: &mut State, zob_keys: &ZobKeys) -> (r: u32)
        requires
            search_ready(*self, *old(state), *zob_keys),
        ensures
            final(state)@ == old(state)@,
            final(state).zob_keys == old(state).zob_keys,
            final(state).bitmask == old(state).bitmask,
            r == root_mov_of(*self, *old(state), *zob_keys),
            r != 0 ==> reg_movs(old(state)@, *old(state).bitmask).contains(r)
                && legal_after(old(state)@, old(state).zob_keys@, *old(state).bitmask, r),
    {
        let ghost m = state@;
        let ghost keys = state.zob_keys@;
        let ghost bm = *state.bitmask;
        let ghost s0 = *state;
        let mov = match self.get_hash(state, zob_keys) {
            Some(entry) => entry.mov,
            None => 0,
        };
        if mov == 0 {
            return 0;
        }
        let mut mov_list: [u32; def::MAX_MOV_COUNT] = [0; def::MAX_MOV_COUNT];
        let ghost zeros = mov_list@;
        assert(forall|j: int| 0 <= j < def::MAX_MOV_COUNT ==> #[trigger] zeros[j] == 0);
        proof {
            lemma_mov_lists_fit(m, bm);
        }
        mov_table::gen_reg_mov_list(state, &mut mov_list);
        let ghost all = reg_movs(m, bm);
        proof {
            let l = mov_list@;
            assert(l.subrange(0, all.len() as int) == all);
            assert forall|j: int| all.len() <= j < def::MAX_MOV_COUNT implies #[trigger] l[j] == zeros[j] by {
                assert(l.subrange(all.len() as int, def::MAX_MOV_COUNT as int)[j - all.len()] == l[j]);
                assert(zeros.subrange(all.len() as int, def::MAX_MOV_COUNT as int)[j - all.len()] == zeros[j]);
            }
        }
        let mut found = false;
        let mut i: usize = 0;
        while i < def::MAX_MOV_COUNT
            invariant
                i <= def::MAX_MOV_COUNT,
                mov != 0,
                all == reg_movs(m, bm),
                all.len() <= def::MAX_MOV_COUNT,
                mov_list@.subrange(0, all.len() as int) == all,
                forall|j: int| all.len() <= j < def::MAX_MOV_COUNT ==> #[trigger] mov_list@[j] == zeros[j],
                forall|j: int| 0 <= j < def::MAX_MOV_COUNT ==> #[trigger] zeros[j] == 0,
                found ==> all.contains(mov),
                !found ==> forall|j: int| 0 <= j < i ==> #[trigger] mov_list@[j] != mov,
            decreases def::MAX_MOV_COUNT - i,
        {
            if mov_list[i] == mov {
                assert(i < all.len()) by {
                    if i >= all.len() {
                        assert(mov_list@[i as int] == zeros[i as int]);
                    }
                }
                assert(all[i as int] == mov_list@.subrange(0, all.len() as int)[i as int]);
                found = true;
            }
            i = i + 1;
        }
        if !found {
            proof {
                if all.contains(mov) {
                    let j = choose|j: int| 0 <= j < all.len() && all[j] == mov;
                    assert(mov_list@.subrange(0, all.len() as int)[j] == mov_list@[j]);
                }
            }
            return 0;
        }
        let player = state.player;
        let (from, to, tp, promo) = crate::util::decode_u32_mov(mov);
        if !playable(state, from, to, tp, promo) {
            return 0;
        }
        proof {
            lemma_undo_mov_restores(m, keys, from as int, to as int, tp, promo);
        }
        state.do_mov(from, to, tp, promo);
        let ghost child = state@;
        assert(child == after(m, keys, mov));
        let legal = probe_ready(state) && !mov_table::is_in_check(state, player);
        state.undo_mov(from, to, tp);
        assert(legal == legal_after(m, keys, bm, mov));
        if legal { mov } else { 0 }
    }

    /// Iterative deepening from depth 1 to `max_depth` with aspiration windows around the
    /// last score, until a mate is found, half the time is spent, the root has one legal
    /// move, or the clock stops the search. Each finished iteration whose root move the hash
    /// table holds (see `root_best_mov`) is recorded in `infos`; the result is the move of the
    /// last such record, a legal move of the position, or 0 when there is none. The position
    /// is the same afterwards. Which move the iterations find is not stated beyond this: it
    /// rests on the scores of the searches (see `ab_search`).
    pub fn search(&mut self, state: &mut State, zob_keys: &ZobKeys, clock: &SearchClock, time_capacity: TimeCapacity,
        max_depth: u8) -> (r: u32)
        requires
            search_ready(*old(self), *old(state), *zob_keys),
        ensures
            final(state)@ == old(state)@,
            final(state).zob_keys == old(state).zob_keys,
            final(state).bitmask == old(state).bitmask,
            final(self).depth_preferred_hash_table.wf(),
            table_scores_ok(final(self).depth_preferred_hash_table.entries()),
            final(self).evaluator == old(self).evaluator,
            final(self).params == old(self).params,
            r != 0 ==> reg_movs(old(state)@, *old(state).bitmask).contains(r)
                && legal_after(old(state)@, old(state).zob_keys@, *old(state).bitmask, r),
            r == (if final(self).infos@.len() == 0 { 0u32 } else { final(self).infos@.last().best_mov }),
            forall|i: int| 0 <= i < final(self).infos@.len() ==> #[trigger] final(self).infos@[i].best_mov != 0
                && reg_movs(old(state)@, *old(state).bitmask).contains(final(self).infos@[i].best_mov)
                && legal_after(old(state)@, old(state).zob_keys@, *old(state).bitmask, final(self).infos@[i].best_mov),
            forall|i: int| 0 <= i < final(self).infos@.len() ==> #[trigger] final(self).infos@[i].depth <= max_depth,
    {
        let ghost s0 = *state;
        self.max_time_millis = time_capacity.main_time_millis;
        self.primary_killer_table = [(0, 0, 0); PV_TRACK_LENGTH];
        self.secondary_killer_table = [(0, 0, 0); PV_TRACK_LENGTH];
        self.history_table = [[[0; 64]; 64]; 2];
        self.butterfly_table = [[[1; 64]; 64]; 2];
        self.root_full_mov_count = full_mov_count(state);
        self.root_half_mov_count = state.non_cap_mov_count;
        self.node_count = 0;
        self.seldepth = 0;
        self.has_one_legal_mov = false;
        self.aborted = false;
        self.infos = Vec::new();

        let in_check = mov_table::is_in_check(state, state.player);

        let mut alpha = -MATE_VAL;
        let mut beta = MATE_VAL;
        let mut depth: u8 = 1;
        let mut best_mov: u32 = 0;
        let mut accumulated_time_taken: u128 = 0;
        let ghost e1 = *self;

        if max_depth == 0 {
            return 0;
        }

        loop
            invariant
                search_ready(*self, *state, *zob_keys),
                state@ == s0@,
                state.zob_keys == s0.zob_keys,
                state.bitmask == s0.bitmask,
                self.evaluator == e1.evaluator,
                self.params == e1.params,
                -MATE_VAL <= alpha < beta <= MATE_VAL,
                1 <= depth <= max_depth,
                in_check == mov_table::in_check(s0@, *s0.bitmask, s0.player),
                best_mov != 0 ==> reg_movs(s0@, *s0.bitmask).contains(best_mov)
                    && legal_after(s0@, s0.zob_keys@, *s0.bitmask, best_mov),
                best_mov == (if self.infos@.len() == 0 { 0u32 } else { self.infos@.last().best_mov }),
                forall|i: int| 0 <= i < self.infos@.len() ==> #[trigger] self.infos@[i].best_mov != 0
                    && reg_movs(s0@, *s0.bitmask).contains(self.infos@[i].best_mov)
                    && legal_after(s0@, s0.zob_keys@, *s0.bitmask, self.infos@[i].best_mov),
                forall|i: int| 0 <= i < self.infos@.len() ==> #[trigger] self.infos@[i].depth <= max_depth,
            decreases (256 - depth) * 3 + (if alpha > -MATE_VAL { 1int } else { 0 }) + (if beta < MATE_VAL { 1int } else { 0 }),
        {
            let score = self.ab_search(state, zob_keys, clock, in_check, false, alpha, beta, depth, 0);

            if self.aborted {
                break;
            }

            if score >= beta && beta < MATE_VAL {
                beta = MATE_VAL;
                continue;
            }

            if score <= alpha && alpha > -MATE_VAL {
                alpha = -MATE_VAL;
                continue;
            }

            let checkmate = score > TERM_VAL || score < -TERM_VAL;
            let total_time_taken = clock.elapsed_millis();
            let root_mov = self.root_best_mov(state, zob_keys);

            if root_mov != 0 {
                best_mov = root_mov;
                let hashfull = if self.depth_preferred_hash_table.used_slots() <= u64::MAX / 1000
                    && self.depth_preferred_hash_table.size_mask() < u64::MAX {
                    self.depth_preferred_hash_table.get_utilization_permill()
                } else {
                    1000
                };
                self.infos.push(SearchInfo {
                    depth,
                    score,
                    seldepth: self.seldepth,
                    nodes: self.node_count,
                    time_millis: total_time_taken,
                    hashfull_permill: hashfull,
                    best_mov: root_mov,
                });

                if checkmate {
                    break;
                }

                if total_time_taken >= accumulated_time_taken
                    && total_time_taken - accumulated_time_taken > self.max_time_millis / 2 {
                    break;
                }

                if self.has_one_legal_mov {
                    break;
                }
            }

            let window = self.params.aspiration_window_size as i64;
            let lo = score as i64 - window;
            let hi = score as i64 + window;
            if window > 0 {
                alpha = if lo < -MATE_VAL as i64 { -MATE_VAL } else { lo as i32 };
                beta = if hi > MATE_VAL as i64 { MATE_VAL } else { hi as i32 };
                if alpha >= beta {
                    alpha = -MATE_VAL;
                    beta = MATE_VAL;
                }
            } else {
                alpha = -MATE_VAL;
                beta = MATE_VAL;
            }

            accumulated_time_taken = total_time_taken;

            if depth >= max_depth {
                break;
            }
            depth = depth + 1;
        }

        best_mov
    }
}


impl SearchEngine {
    /// The score of a move for the side that made it, searched from the position after it
    /// (`ply` plies from the root): late moves first to a depth reduced by the square root
    /// of their number, moves after the principal variation with a null window, and again
    /// with the full window where they may improve it. The position is the same afterwards.
    #[verifier::rlimit(60)]
    fn pvs_child(&mut self, state: &mut State, zob_keys: &ZobKeys, clock: &SearchClock, child_check: bool,
        extended: bool, alpha: i32, beta: i32, d: u8, ply: u8, mov_count: usize, on_pv: bool, pv_found: bool) -> (r: i32)
        requires
            search_ready(*old(self), *old(state), *zob_keys),
            -MATE_VAL <= alpha < beta <= MATE_VAL,
            child_check == mov_table::in_check(old(state)@, *old(state).bitmask, old(state).player),
            1 <= d,
            1 <= ply,
        ensures
            search_kept(*old(self), *final(self), *old(state), *final(state)),
            -MATE_VAL <= r <= MATE_VAL,
        decreases 256 - ply as int, 6int, 0int,
    {
        if d > self.params.late_move_reductions_depth && mov_count > self.params.late_move_reductions_move_count && !extended {
            let reduction = {
                let s = isqrt(if mov_count > 255 * 255 { 255 * 255 } else { mov_count });
                if s < d - 1 { s } else { d - 1 }
            };
            let score = -self.ab_search(state, zob_keys, clock, child_check, extended, -alpha - 1, -alpha, d - reduction, ply);
            if score > alpha && !self.aborted {
                if on_pv && pv_found {
                    let score = -self.ab_search(state, zob_keys, clock, child_check, extended, -alpha - 1, -alpha, d - 1, ply);
                    if score > alpha && score < beta && !self.aborted {
                        -self.ab_search(state, zob_keys, clock, child_check, extended, -beta, -alpha, d - 1, ply)
                    } else {
                        score
                    }
                } else {
                    -self.ab_search(state, zob_keys, clock, child_check, extended, -beta, -alpha, d - 1, ply)
                }
            } else {
                score
            }
        } else {
            if on_pv && pv_found {
                let score = -self.ab_search(state, zob_keys, clock, child_check, extended, -alpha - 1, -alpha, d - 1, ply);
                if score > alpha && score < beta && !self.aborted {
                    -self.ab_search(state, zob_keys, clock, child_check, extended, -beta, -alpha, d - 1, ply)
                } else {
                    score
                }
            } else {
                -self.ab_search(state, zob_keys, clock, child_check, extended, -beta, -alpha, d - 1, ply)
            }
        }
    }
}


impl SearchEngine {
    /// The perft count of the position (see `perft_count`) when it and every position the
    /// count reaches meet what `perft` needs (`perft_ok`), else `None`. The position is the
    /// same afterwards.
    #[verifier::rlimit(60)]
    pub fn perft_checked(&self, state: &mut State, depth: u8) -> (r: Option<usize>)
        requires
            old(state).bitmask.wf(),
        ensures
            final(state)@ == old(state)@,
            final(state).zob_keys == old(state).zob_keys,
            final(state).bitmask == old(state).bitmask,
            r is Some <==> perft_ok(old(state)@, old(state).zob_keys@, *old(state).bitmask, depth as nat),
            r matches Some(n) ==> n == perft_count(old(state)@, old(state).zob_keys@, *old(state).bitmask, depth as nat),
        decreases depth,
    {
        let ghost m = state@;
        let ghost keys = state.zob_keys@;
        let ghost bm = *state.bitmask;
        let ghost zk = state.zob_keys;
        let ghost bmr = state.bitmask;

        if !(state.check_wf() && state.wk_index < 64 && state.bk_index < 64 && state.enp_square < 64) {
            return None;
        }
        assert(position_ok(m, keys, bm));

        if mov_table::is_in_check(state, def::get_opposite_player(state.player)) {
            return Some(0);
        }

        if depth == 0 {
            return Some(1);
        }

        let ghost d = (depth - 1) as nat;
        let ghost all = reg_movs(m, bm);
        let ghost u = until_empty(all);

        let mut node_count: usize = 0;
        let mut mov_list: [u32; def::MAX_MOV_COUNT] = [0; def::MAX_MOV_COUNT];
        let ghost zeros = mov_list@;
        proof {
            lemma_mov_lists_fit(m, bm);
        }
        mov_table::gen_reg_mov_list(state, &mut mov_list);
        proof {
            let l = mov_list@;
            let rest = l.subrange(all.len() as int, def::MAX_MOV_COUNT as int);
            assert(l =~= all + rest);
            assert(rest.len() > 0 ==> rest[0] == zeros[all.len() as int]);
            lemma_until_empty_padded(all, rest);
            lemma_until_empty(l);
            assert(until_empty(l) == u);
            lemma_perft_sum_nonneg(m, keys, bm, u, d);
            lemma_king_free_len(m, u);
            assert(u.subrange(0, 0) =~= Seq::<u32>::empty());
            assert(u.subrange(0, u.len() as int) =~= u);
        }

        let mut mov_index: usize = 0;
        while mov_index < def::MAX_MOV_COUNT
            invariant_except_break
                mov_index <= u.len(),
            invariant
                state@ == m,
                m == old(state)@,
                zk == old(state).zob_keys,
                bmr == old(state).bitmask,
                state.zob_keys == zk,
                state.bitmask == bmr,
                keys == zk@,
                bm == *bmr,
                state.wf(),
                position_ok(m, keys, bm),
                depth > 0,
                d == depth - 1,
                !in_check(m, bm, def::opposite(m.player)),
                king_free_len(m, u) <= u.len(),
                forall|k: int| 0 <= k < king_free_len(m, u) ==> !#[trigger] takes_king(m, u[k]),
                king_free_len(m, u) < u.len() ==> takes_king(m, u[king_free_len(m, u) as int]),
                u.subrange(0, u.len() as int) == u,
                u == until_empty(reg_movs(m, bm)),
                u.len() <= def::MAX_MOV_COUNT,
                forall|k: int| 0 <= k < u.len() ==> #[trigger] u[k] == mov_list@[k] && mov_list@[k] != 0,
                u.len() < def::MAX_MOV_COUNT ==> mov_list@[u.len() as int] == 0,
                forall|k: int| 0 <= k < mov_index && k < u.len() ==> !#[trigger] takes_king(m, u[k]),
                forall|k: int| 0 <= k < mov_index && k < u.len() ==> #[trigger] mov_cond(m, keys, bm, u[k], d),
                node_count == perft_sum(m, keys, bm, u.subrange(0, mov_index as int), d),
                perft_sum(m, keys, bm, u, d) >= 0,
            ensures
                mov_index == u.len(),
                forall|k: int| 0 <= k < u.len() ==> !#[trigger] takes_king(m, u[k]),
                forall|k: int| 0 <= k < u.len() ==> #[trigger] mov_cond(m, keys, bm, u[k], d),
                node_count == perft_sum(m, keys, bm, u, d),
            decreases def::MAX_MOV_COUNT - mov_index,
        {
            let mov = mov_list[mov_index];

            assert(mov_index < u.len() ==> u[mov_index as int] == mov_list@[mov_index as int]);
            if mov == 0 {
                assert(mov_index == u.len());
                assert(u.subrange(0, mov_index as int) =~= u);
                break;
            }
            assert(mov_index < u.len());
            assert(mov == u[mov_index as int]);
            let ghost i = mov_index as int;

            proof {
                if perft_ok(m, keys, bm, depth as nat) {
                    lemma_movs_ok_at(m, keys, bm, u, d, i);
                }
            }
            let (from, to, tp, promo) = crate::util::decode_u32_mov(mov);
            if to >= 64 {
                return None;
            }

            if def::is_k(state.squares[to]) {
                proof {
                    assert(takes_king(m, u[i]));
                    assert(mov_cond(m, keys, bm, u[i], d));
                    let kf = king_free_len(m, u) as int;
                    if kf < i {
                        assert(takes_king(m, u[kf]));
                    }
                    assert(kf == i);
                    assert(u.subrange(0, kf) =~= u.subrange(0, i));
                    lemma_movs_ok_from(m, keys, bm, u, d);
                    assert(exists|j: int| 0 <= j < u.len() && #[trigger] takes_king(m, u[j]));
                }
                return Some(0);
            }
            assert(!takes_king(m, u[i]));

            if !playable(state, from, to, tp, promo) {
                return None;
            }

            proof {
                lemma_perft_sum_step(m, keys, bm, u, d, i);
                lemma_undo_mov_restores(m, keys, from as int, to as int, tp, promo);
            }

            state.do_mov(from, to, tp, promo);
            let child = self.perft_checked(state, depth - 1);
            state.undo_mov(from, to, tp);

            let c = match child {
                None => {
                    return None;
                },
                Some(c) => c,
            };
            assert(mov_cond(m, keys, bm, u[i], d));
            if node_count > usize::MAX - c {
                proof {
                    if perft_ok(m, keys, bm, depth as nat) {
                        let kf = king_free_len(m, u) as int;
                        if kf <= i {
                            assert(takes_king(m, u[kf]));
                        }
                        let v = u.subrange(0, kf);
                        lemma_perft_sum_step(m, keys, bm, v, d, i);
                        assert(v.subrange(0, i + 1) =~= u.subrange(0, i + 1));
                        assert(v.subrange(0, i) =~= u.subrange(0, i));
                        assert(v[i] == u[i]);
                    }
                }
                return None;
            }
            node_count = node_count + c;

            mov_index = mov_index + 1;
            if mov_index == def::MAX_MOV_COUNT {
                assert(mov_index == u.len());
                assert(u.subrange(0, mov_index as int) =~= u);
            }
        }

        proof {
            let kf = king_free_len(m, u) as int;
            if kf < u.len() {
                assert(takes_king(m, u[kf]));
            }
            assert(kf == u.len());
            assert(u.subrange(0, kf) =~= u);
            lemma_movs_ok_from(m, keys, bm, u, d);
            assert(!exists|j: int| 0 <= j < u.len() && #[trigger] takes_king(m, u[j]));
        }
        Some(node_count)
    }
}


/// The exchange is worth nothing less than nothing to the side to move: it may always stop
/// capturing, so the value of going on with the exchange on `to` is never negative.
pub proof fn lemma_exchange_gain_nonneg(m: StateModel, keys: Seq<Vec<u64>>, bm: BitMask, params: EvalParams, to: int,
    last_attacker: u8)
    ensures
        exchange_gain(m, keys, bm, params, to, last_attacker) >= 0,
{
}

/// A capture gains at most what it takes and what it promotes to: the opponent's part of
/// the exchange that follows never counts in the capturer's favour.
pub proof fn lemma_see_at_most_taken(m: StateModel, keys: Seq<Vec<u64>>, bm: BitMask, params: EvalParams, from: int,
    to: int, tp: u8, promo: u8)
    ensures
        see_value(m, keys, bm, params, from, to, tp, promo) <= value_of(params, m.squares[to]) + value_of(params, promo),
{
    let next = do_mov_model(m, keys, from, to, tp, promo);
    lemma_exchange_gain_nonneg(next, keys, bm, params, to, next.squares[to]);
}

} // verus!
