//! A transposition table with one entry per slot, replaced when the new search is at
//! least as deep (depth plus age) as the one stored.
use vstd::prelude::*;

verus! {

pub const HASH_TYPE_EXACT: u8 = 1;
pub const HASH_TYPE_ALPHA: u8 = 2;
pub const HASH_TYPE_BETA: u8 = 3;

#[derive(Clone, Copy)]
pub struct TableEntry {
    pub key: u64,
    pub safe_check: u64,
    pub flag: u8,
    pub age: u16,
    pub depth: u8,
    pub score: i32,
    pub eval: i32,
    pub mov: u32,
}

impl TableEntry {
    pub open spec fn is_empty(self) -> bool {
        self == TableEntry { key: 0, safe_check: 0, flag: 0, age: 0, depth: 0, score: 0, eval: 0, mov: 0 }
    }

    fn empty() -> (r: Self)
        ensures
            r.is_empty(),
    {
        TableEntry {
            key: 0,
            safe_check: 0,
            flag: 0,
            age: 0,
            depth: 0,
            score: 0,
            eval: 0,
            mov: 0,
        }
    }
}

pub struct LookupResult {
    pub flag: u8,
    pub depth: u8,
    pub score: i32,
    pub eval: i32,
    pub mov: u32,
}

pub struct DepthPreferredHashTable {
    mod_base: u64,
    table: Vec<TableEntry>,
    utilization_count: u64,
}

/// The slot of a key in a table of `len` slots (`len` a power of two).
pub open spec fn slot_of(key: u64, mod_base: u64) -> int {
    (key & mod_base) as int
}

/// What a lookup of `key` with check value `safe_check` finds in `entries`.
pub open spec fn lookup(entries: Seq<TableEntry>, mod_base: u64, key: u64, safe_check: u64) -> Option<LookupResult> {
    let e = entries[slot_of(key, mod_base)];
    if e.key == key && e.safe_check == safe_check {
        Some(LookupResult { flag: e.flag, depth: e.depth, score: e.score, eval: e.eval, mov: e.mov })
    } else {
        None
    }
}

/// Whether storing a search of `depth` at `age` replaces `e`.
pub open spec fn replaces(e: TableEntry, depth: u8, age: u16) -> bool {
    depth as int + age as int >= e.depth as int + e.age as int
}

/// The entries after storing; the slot changes only when the new search replaces the old one.
pub open spec fn stored(entries: Seq<TableEntry>, mod_base: u64, key: u64, safe_check: u64, depth: u8, age: u16,
    flag: u8, score: i32, eval: i32, mov: u32) -> Seq<TableEntry> {
    let i = slot_of(key, mod_base);
    if replaces(entries[i], depth, age) {
        entries.update(i, TableEntry { key, safe_check, flag, age, depth, score, eval, mov })
    } else {
        entries
    }
}

pub proof fn lemma_slot_in_table(key: u64, mod_base: u64)
    ensures
        0 <= slot_of(key, mod_base) <= mod_base,
{
    assert(key & mod_base <= mod_base) by (bit_vector);
}

impl DepthPreferredHashTable {
    pub closed spec fn entries(&self) -> Seq<TableEntry> {
        self.table@
    }

    pub closed spec fn mask(&self) -> u64 {
        self.mod_base
    }

    pub closed spec fn utilization(&self) -> u64 {
        self.utilization_count
    }

    /// The table has a slot for every value of the mask, and no stored depth plus age
    /// exceeds what the comparison can add up.
    pub closed spec fn wf(&self) -> bool {
        &&& self.table@.len() == self.mod_base + 1
        &&& forall|i: int| 0 <= i < self.table@.len() ==>
                #[trigger] self.table@[i].depth as int + self.table@[i].age as int <= u16::MAX
    }

    /// A well-formed table has a slot for every value of its mask.
    pub proof fn lemma_wf_len(&self)
        requires
            self.wf(),
        ensures
            self.entries().len() == self.mask() + 1,
    {
    }

    pub fn new(size: usize) -> (r: Self)
        requires
            size >= 1,
        ensures
            r.wf(),
            r.mask() == size - 1,
            r.entries().len() == size,
            forall|i: int| 0 <= i < size ==> #[trigger] r.entries()[i].is_empty(),
            r.utilization() == 0,
    {
        let mut table: Vec<TableEntry> = Vec::new();
        let mut i: usize = 0;
        while i < size
            invariant
                i <= size,
                table@.len() == i,
                forall|k: int| 0 <= k < i ==> #[trigger] table@[k].is_empty(),
            decreases size - i,
        {
            table.push(TableEntry::empty());
            i = i + 1;
        }
        assert forall|k: int| 0 <= k < table@.len() implies
            #[trigger] table@[k].depth as int + table@[k].age as int <= u16::MAX by {
            assert(table@[k].is_empty());
        }
        DepthPreferredHashTable {
            mod_base: (size - 1) as u64,
            table: table,
            utilization_count: 0,
        }
    }

    pub fn get(&self, key: u64, safe_check: u64) -> (r: Option<LookupResult>)
        requires
            self.wf(),
        ensures
            r == lookup(self.entries(), self.mask(), key, safe_check),
    {
        let len = self.table.len();
        proof {
            lemma_slot_in_table(key, self.mod_base);
            assert((key & self.mod_base) as usize as int == slot_of(key, self.mod_base));
        }
        let entry = &self.table[(key & self.mod_base) as usize];

        if entry.key == key && entry.safe_check == safe_check {
            Some(LookupResult {
                flag: entry.flag,
                depth: entry.depth,
                score: entry.score,
                eval: entry.eval,
                mov: entry.mov,
            })
        } else {
            None
        }
    }

    /// Stores a search result in the slot of `key` if it is at least as deep, counting the
    /// slot as used when its entry had no flag.
    pub fn set(&mut self, key: u64, safe_check: u64, depth: u8, age: u16, flag: u8, score: i32, eval: i32, mov: u32)
        requires
            old(self).wf(),
            depth as int + age as int <= u16::MAX,
            old(self).utilization() < u64::MAX,
        ensures
            final(self).wf(),
            final(self).mask() == old(self).mask(),
            final(self).entries() == stored(old(self).entries(), old(self).mask(), key, safe_check, depth, age, flag, score, eval, mov),
            final(self).utilization() == old(self).utilization()
                + (if old(self).entries()[slot_of(key, old(self).mask())].flag == 0 { 1int } else { 0int }),
    {
        let len = self.table.len();
        proof {
            lemma_slot_in_table(key, self.mod_base);
            assert((key & self.mod_base) as usize as int == slot_of(key, self.mod_base));
        }
        let index = (key & self.mod_base) as usize;
        let entry = self.table[index];

        if entry.flag == 0 {
            self.utilization_count = self.utilization_count + 1;
        }

        if (depth as u16 + age) >= (entry.depth as u16 + entry.age) {
            self.table.set(index, TableEntry {
                key,
                safe_check,
                flag,
                age,
                depth,
                score,
                eval,
                mov,
            });
        }
    }

    /// The mask that picks a key's slot.
    pub fn size_mask(&self) -> (r: u64)
        ensures
            r == self.mask(),
    {
        self.mod_base
    }

    /// The number of slots counted as used.
    pub fn used_slots(&self) -> (r: u64)
        ensures
            r == self.utilization(),
    {
        self.utilization_count
    }

    /// The used share of the slots, in thousandths.
    pub fn get_utilization_permill(&self) -> (r: u64)
        requires
            self.wf(),
            self.utilization() <= u64::MAX / 1000,
            self.mask() < u64::MAX,
        ensures
            r == self.utilization() * 1000 / (self.mask() + 1),
    {
        self.utilization_count * 1000 / (self.mod_base + 1)
    }

    /// Empties every slot and resets the use count.
    pub fn clear(&mut self)
        requires
            old(self).wf(),
        ensures
            final(self).wf(),
            final(self).mask() == old(self).mask(),
            final(self).entries().len() == old(self).entries().len(),
            forall|i: int| 0 <= i < final(self).entries().len() ==> #[trigger] final(self).entries()[i].is_empty(),
            final(self).utilization() == 0,
    {
        let size = self.table.len();
        let mut table: Vec<TableEntry> = Vec::new();
        let mut i: usize = 0;
        while i < size
            invariant
                i <= size,
                table@.len() == i,
                forall|k: int| 0 <= k < i ==> #[trigger] table@[k].is_empty(),
            decreases size - i,
        {
            table.push(TableEntry::empty());
            i = i + 1;
        }
        self.table = table;
        self.utilization_count = 0;
        assert forall|i: int| 0 <= i < self.table@.len() implies
            #[trigger] self.table@[i].depth as int + self.table@[i].age as int <= u16::MAX by {
            assert(self.table@[i].is_empty());
        }
    }
}

/// A lookup right after a store that replaced the slot finds what was stored.
pub proof fn lemma_get_after_set(entries: Seq<TableEntry>, mod_base: u64, key: u64, safe_check: u64, depth: u8,
    age: u16, flag: u8, score: i32, eval: i32, mov: u32)
    requires
        entries.len() == mod_base + 1,
        replaces(entries[slot_of(key, mod_base)], depth, age),
    ensures
        lookup(stored(entries, mod_base, key, safe_check, depth, age, flag, score, eval, mov), mod_base, key, safe_check)
            == Some(LookupResult { flag, depth, score, eval, mov }),
{
    lemma_slot_in_table(key, mod_base);
}

/// A store leaves the lookup of every key in another slot as it was.
pub proof fn lemma_set_other_slot(entries: Seq<TableEntry>, mod_base: u64, key: u64, safe_check: u64, depth: u8,
    age: u16, flag: u8, score: i32, eval: i32, mov: u32, other: u64, other_check: u64)
    requires
        entries.len() == mod_base + 1,
        slot_of(other, mod_base) != slot_of(key, mod_base),
    ensures
        lookup(stored(entries, mod_base, key, safe_check, depth, age, flag, score, eval, mov), mod_base, other, other_check)
            == lookup(entries, mod_base, other, other_check),
{
    lemma_slot_in_table(key, mod_base);
    lemma_slot_in_table(other, mod_base);
}

} // verus!
