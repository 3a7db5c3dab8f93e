//! A fixed cycle of ten small numbers, for cheap variety in move choice.
use vstd::prelude::*;

verus! {

pub struct SimpleRnd {
    values: [i32; 10],
    next: usize,
}

/// The cycle of values.
pub open spec fn rnd_values() -> Seq<i32> {
    seq![1, 3, 5, 7, 2, 4, 6, 8, 9, 0]
}

impl SimpleRnd {
    /// The position in the cycle of the value last given.
    pub closed spec fn position(&self) -> int {
        self.next as int
    }

    pub closed spec fn wf(&self) -> bool {
        &&& self.values@ == rnd_values()
        &&& self.next < 10
    }

    pub fn new() -> (r: Self)
        ensures
            r.wf(),
            r.position() == 0,
    {
        let r = SimpleRnd {
            values: [1, 3, 5, 7, 2, 4, 6, 8, 9, 0],
            next: 0,
        };
        assert(r.values@ =~= rnd_values());
        r
    }

    /// Steps to the next position of the cycle (after the last comes the first) and gives its value.
    pub fn next_rnd(&mut self) -> (r: i32)
        requires
            old(self).wf(),
        ensures
            final(self).wf(),
            final(self).position() == (old(self).position() + 1) % 10,
            r == rnd_values()[final(self).position()],
    {
        self.next = self.next + 1;
        if self.next > 9 {
            self.next = 0;
        }

        self.values[self.next]
    }
}

} // verus!
