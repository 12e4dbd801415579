//! The transposition table: a fixed number of slots, each remembering the
//! last entry stored under a fingerprint that falls into it.

use vstd::prelude::*;
use crate::entry::Entry;
use crate::position::Move;
use crate::searcher::EvalType;

verus! {

/// The bytes that one slot is counted as when a table is sized by a budget.
pub const SLOT_BYTES: usize = 24;

/// `n` is 1, 2, 4, 8, ...
pub open spec fn is_power_of_two(n: int) -> bool
    decreases n,
{
    n == 1 || (n > 1 && n % 2 == 0 && is_power_of_two(n / 2))
}

/// The largest power of two that is not above `n`, and 1 for `n` below 1.
pub open spec fn largest_power_of_two(n: int) -> int
    decreases n,
{
    if n <= 1 {
        1
    } else {
        2 * largest_power_of_two(n / 2)
    }
}

/// The largest budget that a table is sized by: a larger one counts as this.
pub const MAX_TABLE_BYTES: usize = 0x7fff_ffff;

/// The number of slots of a table made with a budget of `bytes` bytes: the
/// largest power of two of slots that the budget pays for, and one slot
/// where it pays for none.
pub open spec fn slots_for(bytes: usize) -> int {
    if bytes > MAX_TABLE_BYTES {
        largest_power_of_two(MAX_TABLE_BYTES as int / SLOT_BYTES as int)
    } else {
        largest_power_of_two(bytes as int / SLOT_BYTES as int)
    }
}

/// The slots of a table that was never written: each carries the
/// fingerprint 0 and no entry.
pub open spec fn empty_slots(count: int) -> Seq<(u64, Option<Entry>)> {
    Seq::new(count as nat, |i: int| (0u64, None::<Entry>))
}

/// The slot that a fingerprint falls into in a table of `len` slots.
pub open spec fn slot_of(len: nat, hash: u64) -> int {
    ((hash as usize) as int) % (len as int)
}

/// The entry that a table with the slots `slots` gives for `hash`: what its
/// slot holds, if that was stored under `hash` itself.
pub open spec fn probe_slots(slots: Seq<(u64, Option<Entry>)>, hash: u64) -> Option<Entry> {
    let slot = slots[slot_of(slots.len(), hash)];
    if slot.0 == hash {
        slot.1
    } else {
        None
    }
}

/// The slots after `entry` was stored under `hash`: its slot is overwritten,
/// whatever it held.
pub open spec fn store_slots(slots: Seq<(u64, Option<Entry>)>, hash: u64, entry: Entry) -> Seq<
    (u64, Option<Entry>),
> {
    slots.update(slot_of(slots.len(), hash), (hash, Some(entry)))
}

/// `largest_power_of_two(n)` is a power of two, and the only one between
/// half of `n` and `n`.
pub proof fn largest_power_of_two_is_largest(n: int)
    ensures
        is_power_of_two(largest_power_of_two(n)),
        n >= 1 ==> largest_power_of_two(n) <= n < 2 * largest_power_of_two(n),
        n < 1 ==> largest_power_of_two(n) == 1,
    decreases n,
{
    if n > 1 {
        largest_power_of_two_is_largest(n / 2);
        let half = largest_power_of_two(n / 2);
        assert((2 * half) / 2 == half);
        assert((2 * half) % 2 == 0);
    }
}

/// A stored entry is found again under its fingerprint. Another fingerprint
/// finds what it found before, unless it falls into the same slot: then it
/// finds nothing.
pub proof fn probe_after_store(
    slots: Seq<(u64, Option<Entry>)>,
    hash: u64,
    entry: Entry,
    other: u64,
)
    requires
        slots.len() > 0,
    ensures
        probe_slots(store_slots(slots, hash, entry), hash) == Some(entry),
        other != hash && slot_of(slots.len(), other) != slot_of(slots.len(), hash) ==> probe_slots(
            store_slots(slots, hash, entry),
            other,
        ) == probe_slots(slots, other),
        other != hash && slot_of(slots.len(), other) == slot_of(slots.len(), hash) ==> probe_slots(
            store_slots(slots, hash, entry),
            other,
        ) == None::<Entry>,
{
}

#[verifier::external_type_specification]
#[verifier::external_body]
#[verifier::reject_recursive_types(T)]
pub struct ExCacheTable<T: Copy + Clone + PartialEq + PartialOrd>(chess::CacheTable<T>);

/// The slots of a cache table of the `chess` crate, in their order: for each
/// the fingerprint it was last written under, and what was written.
pub uninterp spec fn table_slots(table: chess::CacheTable<Option<Entry>>) -> Seq<
    (u64, Option<Entry>),
>;

/// Calls `chess::CacheTable::new`, which panics unless `size` is a power of
/// two, and fills every slot with the fingerprint 0 and the value given: here
/// no entry. The slots are allocated at once, so their size in bytes has to
/// be a size that a vector can have.
#[verifier::external_body]
fn cache_new(size: usize) -> (table: chess::CacheTable<Option<Entry>>)
    requires
        is_power_of_two(size as int),
        size * SLOT_BYTES <= MAX_TABLE_BYTES,
    ensures
        table_slots(table) == empty_slots(size as int),
{
    chess::CacheTable::new(size, None)
}

/// Calls `chess::CacheTable::get`. The slot looked at is the one whose index
/// is `hash`, as a `usize`, masked with the number of slots less one; that
/// number is a power of two, so the index is the remainder. The slot's value
/// is given where the slot was written under `hash` itself.
#[verifier::external_body]
fn cache_get(table: &chess::CacheTable<Option<Entry>>, hash: u64) -> (found: Option<Option<Entry>>)
    ensures
        found == {
            let slot = table_slots(*table)[slot_of(table_slots(*table).len(), hash)];
            if slot.0 == hash {
                Some(slot.1)
            } else {
                None
            }
        },
{
    table.get(hash)
}

/// Calls `chess::CacheTable::add`, which overwrites the slot of `hash` (see
/// `cache_get`) with `hash` and `entry`.
#[verifier::external_body]
fn cache_add(table: &mut chess::CacheTable<Option<Entry>>, hash: u64, entry: Entry)
    ensures
        table_slots(*final(table)) == store_slots(table_slots(*old(table)), hash, entry),
{
    table.add(hash, Some(entry))
}

/// A transposition table with always-replace slots.
pub struct TranspositionTable {
    table: chess::CacheTable<Option<Entry>>,
    capacity: usize,
}

impl View for TranspositionTable {
    type V = Seq<(u64, Option<Entry>)>;

    /// The slots of the table.
    closed spec fn view(&self) -> Seq<(u64, Option<Entry>)> {
        table_slots(self.table)
    }
}

/// The largest power of two that is not above `n`, and 1 for 0.
pub fn largest_power_of_two_below(n: usize) -> (power: usize)
    ensures
        power == largest_power_of_two(n as int),
        1 <= power,
        n >= 1 ==> power <= n,
    decreases n,
{
    if n <= 1 {
        1
    } else {
        2 * largest_power_of_two_below(n / 2)
    }
}

impl TranspositionTable {
    /// The number of slots, as the table itself holds it.
    pub closed spec fn slot_count(&self) -> usize {
        self.capacity
    }

    /// The table has as many slots as it says, a power of two of them.
    pub open spec fn wf(&self) -> bool {
        &&& self@.len() == self.slot_count()
        &&& is_power_of_two(self@.len() as int)
    }

    /// The entry that the table gives for `hash`.
    pub open spec fn probe_spec(&self, hash: u64) -> Option<Entry> {
        probe_slots(self@, hash)
    }

    /// An empty table for a budget of `capacity_bytes` bytes.
    pub fn new(capacity_bytes: usize) -> (table: TranspositionTable)
        ensures
            table.wf(),
            table@ == empty_slots(slots_for(capacity_bytes)),
            forall|hash: u64| table.probe_spec(hash) == None::<Entry>,
    {
        let budget = if capacity_bytes > MAX_TABLE_BYTES {
            MAX_TABLE_BYTES
        } else {
            capacity_bytes
        };
        let capacity = largest_power_of_two_below(budget / SLOT_BYTES);
        proof {
            largest_power_of_two_is_largest(budget as int / SLOT_BYTES as int);
        }
        let table = TranspositionTable { table: cache_new(capacity), capacity };
        assert forall|hash: u64| table.probe_spec(hash) == None::<Entry> by {
            assert(0 <= slot_of(table@.len(), hash) < table@.len());
        }
        table
    }

    /// The number of slots.
    pub fn capacity(&self) -> (slots: usize)
        requires
            self.wf(),
        ensures
            slots == self@.len(),
            slots >= 1,
    {
        self.capacity
    }

    /// Looks `hash` up. A slot that was never written, or that was last
    /// written under another fingerprint, gives nothing.
    pub fn probe(&self, hash: u64) -> (found: Option<Entry>)
        requires
            self.wf(),
        ensures
            found == self.probe_spec(hash),
    {
        match cache_get(&self.table, hash) {
            Some(found) => found,
            None => None,
        }
    }

    /// Stores an entry under `hash`, in place of whatever its slot held.
    pub fn store(&mut self, hash: u64, value: i32, move_: Option<Move>, depth: u8, node_type: EvalType)
        requires
            old(self).wf(),
        ensures
            final(self).wf(),
            final(self)@ == store_slots(old(self)@, hash, Entry { value, move_, depth, node_type }),
            final(self).probe_spec(hash) == Some(Entry { value, move_, depth, node_type }),
    {
        cache_add(&mut self.table, hash, Entry::new(value, move_, depth, node_type));
        proof {
            probe_after_store(old(self)@, hash, Entry { value, move_, depth, node_type }, hash);
        }
    }
}

} // verus!
