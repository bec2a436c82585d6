//! The identifier allocator: a persistent counter that hands out each number
//! once.

use crate::message::{Message, MessageView};
use crate::stable::{
    counter_create, counter_get, counter_region, counter_resume, counter_set, counter_value,
    MemoryRegions, StableCounter,
};
use vstd::prelude::*;

verus! {

/// The counter behind the identifiers of every record kind.
pub struct IdAllocator {
    cell: StableCounter,
}

/// What one allocation does to a counter that stands at `counter`: the
/// identifier it hands out and where the counter stands afterwards. The last
/// number is never handed out, since the counter could not move past it.
pub open spec fn issue(counter: u64) -> Option<(u64, u64)> {
    if counter < u64::MAX {
        Some((counter, (counter + 1) as u64))
    } else {
        None
    }
}

/// The identifiers that `n` allocations in a row hand out, starting from a
/// counter that stands at `counter` and stopping early if it runs out.
pub open spec fn issued(counter: u64, n: nat) -> Seq<u64>
    decreases n,
{
    if n == 0 {
        Seq::empty()
    } else {
        match issue(counter) {
            Some((id, next)) => seq![id] + issued(next, (n - 1) as nat),
            None => Seq::empty(),
        }
    }
}

pub open spec fn exhausted_text() -> Seq<char> {
    "Identifier counter exhausted"@
}

impl IdAllocator {
    /// The identifier that the next allocation hands out.
    pub closed spec fn next(&self) -> u64 {
        counter_value(self.cell)
    }

    /// The region of stable memory that the counter was opened in.
    pub closed spec fn region(&self) -> u8 {
        counter_region(self.cell)
    }

    /// A counter at zero in region `id`, whatever the region held.
    pub(crate) fn create(regions: &MemoryRegions, id: u8) -> (ids: Self)
        requires
            id < 255,
        ensures
            ids.next() == 0,
            ids.region() == id,
    {
        IdAllocator { cell: counter_create(regions, id, 0) }
    }

    /// The counter that region `id` holds, or one at zero if it holds none.
    /// Where it stands depends on the memory alone.
    pub(crate) fn resume(regions: &MemoryRegions, id: u8) -> (ids: Self)
        requires
            id < 255,
        ensures
            ids.region() == id,
    {
        IdAllocator { cell: counter_resume(regions, id, 0) }
    }

    /// The identifier that the next allocation would hand out.
    pub fn peek(&self) -> (id: u64)
        ensures
            id == self.next(),
    {
        counter_get(&self.cell)
    }

    /// Moves the counter up to `floor` if it stands below it, so that no
    /// identifier below `floor` is handed out from now on. The counter never
    /// moves down.
    pub fn advance_to(&mut self, floor: u64)
        ensures
            final(self).next() == if old(self).next() < floor {
                floor
            } else {
                old(self).next()
            },
            old(self).next() <= final(self).next(),
            final(self).region() == old(self).region(),
    {
        if counter_get(&self.cell) < floor {
            counter_set(&mut self.cell, floor);
        }
    }
}

/// Hands out the counter's value and moves the counter one up. The new value
/// is written to stable memory before the identifier is returned.
pub fn fetch_and_increment_id(ids: &mut IdAllocator) -> (outcome: Result<u64, Message>)
    ensures
        final(ids).region() == old(ids).region(),
        old(ids).next() <= final(ids).next(),
        match outcome {
            Ok(id) => issue(old(ids).next()) == Some((id, final(ids).next())),
            Err(failure) => issue(old(ids).next()) is None && final(ids).next() == old(ids).next()
                && failure@ == MessageView::Fatal(exhausted_text()),
        },
{
    let current = counter_get(&ids.cell);
    if current == u64::MAX {
        Err(Message::Fatal("Identifier counter exhausted".to_owned()))
    } else {
        counter_set(&mut ids.cell, current + 1);
        Ok(current)
    }
}

/// The `i`-th of `n` allocations in a row hands out the counter's starting
/// value plus `i`.
pub proof fn lemma_issued_values(counter: u64, n: nat)
    ensures
        issued(counter, n).len() <= n,
        forall|i: int|
            0 <= i < issued(counter, n).len() ==> #[trigger] issued(counter, n)[i] == counter + i,
    decreases n,
{
    if n > 0 {
        if let Some((id, next)) = issue(counter) {
            lemma_issued_values(next, (n - 1) as nat);
            let tail = issued(next, (n - 1) as nat);
            assert forall|i: int| 0 <= i < issued(counter, n).len() implies #[trigger] issued(
                counter,
                n,
            )[i] == counter + i by {
                if i > 0 {
                    assert(issued(counter, n)[i] == tail[i - 1]);
                }
            }
        }
    }
}

/// Identifiers handed out by any run of allocations are strictly increasing,
/// so none is handed out twice.
pub proof fn lemma_issued_strictly_increasing(counter: u64, n: nat)
    ensures
        forall|i: int, j: int|
            0 <= i < j < issued(counter, n).len() ==> #[trigger] issued(counter, n)[i]
                < #[trigger] issued(counter, n)[j],
{
    lemma_issued_values(counter, n);
}

/// Whether a counter never moved down over a run of operations, where
/// `counters[k]` is where it stood after `k` of them.
pub open spec fn never_moves_down(counters: Seq<u64>) -> bool {
    forall|a: int, b: int| 0 <= a <= b < counters.len() ==> counters[a] <= counters[b]
}

/// Of two allocations, the later hands out the larger identifier, whatever
/// was done in between, as long as nothing moved the counter down. Every
/// operation of this crate that can reach the counter leaves it or raises it.
pub proof fn lemma_later_identifier_is_larger(
    counters: Seq<u64>,
    earlier: int,
    later: int,
    first_id: u64,
    second_id: u64,
)
    requires
        never_moves_down(counters),
        0 <= earlier < later < counters.len(),
        issue(counters[earlier]) == Some((first_id, counters[earlier + 1])),
        exists|after: u64| issue(counters[later]) == Some((second_id, after)),
    ensures
        first_id < second_id,
{
    assert(counters[earlier + 1] <= counters[later]);
}

} // verus!
