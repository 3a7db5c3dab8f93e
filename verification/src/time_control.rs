//! How much of the remaining clock to spend on one move.
use vstd::prelude::*;

verus! {

pub const OVERHEAD_TIME: u128 = 20;

pub struct TimeCapacity {
    pub main_time_millis: u128,
    pub extra_time_millis: u128,
}

/// The share of the clock for the next move: the total over 1 + 0.8 of the moves to go,
/// plus 0.9 of the increment (integer divisions throughout).
pub open spec fn main_time(total: u128, moves_to_go: u128, increment: u128) -> int {
    total as int / (1 + moves_to_go as int * 8 / 10) + increment as int * 9 / 10
}

/// The inputs for which the formula stays within `u128`.
pub open spec fn time_inputs_ok(total: u128, moves_to_go: u128, increment: u128) -> bool {
    &&& moves_to_go as int * 8 <= u128::MAX
    &&& increment as int * 9 <= u128::MAX
    &&& main_time(total, moves_to_go, increment) <= u128::MAX
}

/// The time budget: the main share less a fixed overhead (or half of it when it is no more
/// than the overhead), and as extra time the rest of the clock spread over the moves to go.
pub fn calculate_time_capacity(total_time_millis: u128, moves_to_go: u128, increment: u128) -> (r: TimeCapacity)
    requires
        time_inputs_ok(total_time_millis, moves_to_go, increment),
    ensures
        ({
            let main = main_time(total_time_millis, moves_to_go, increment);
            let extra = if total_time_millis > main { (total_time_millis - main) / moves_to_go as int } else { 0 };
            if main > OVERHEAD_TIME {
                r.main_time_millis == main - OVERHEAD_TIME && r.extra_time_millis == extra
            } else {
                r.main_time_millis == main / 2 && r.extra_time_millis == 0
            }
        }),
{
    let main_time_millis = total_time_millis / (1 + moves_to_go * 8 / 10) + increment * 9 / 10;

    assert(moves_to_go == 0 ==> main_time_millis >= total_time_millis) by {
        if moves_to_go == 0 {
            assert(moves_to_go * 8 / 10 == 0);
            assert(total_time_millis / 1 == total_time_millis);
        }
    }
    let extra_time_millis = if total_time_millis > main_time_millis {
        (total_time_millis - main_time_millis) / moves_to_go
    } else {
        0
    };

    if main_time_millis > OVERHEAD_TIME {
        TimeCapacity {
            main_time_millis: main_time_millis - OVERHEAD_TIME,
            extra_time_millis: extra_time_millis,
        }
    } else {
        TimeCapacity {
            main_time_millis: main_time_millis / 2,
            extra_time_millis: 0,
        }
    }
}

} // verus!
