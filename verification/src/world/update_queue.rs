//! The order in which updates leave the queue: the highest rank first, and
//! among updates of one rank the one that has waited longest.

use vstd::prelude::*;

use crate::world::world_update::WorldUpdate;
use crate::world::world_update::WorldUpdateEventType;

verus! {

/// The index of the update that leaves `queue` next: the first among those
/// of the highest rank.
pub open spec fn next_index(queue: Seq<WorldUpdate<WorldUpdateEventType>>) -> int
    decreases queue.len(),
{
    if queue.len() <= 1 {
        0
    } else {
        let best = next_index(queue.drop_last());
        if queue.last().rank() > queue[best].rank() {
            queue.len() - 1
        } else {
            best
        }
    }
}

/// The update that leaves next has the highest rank in the queue, and every
/// update before it has a lower rank.
pub proof fn lemma_next_index(queue: Seq<WorldUpdate<WorldUpdateEventType>>)
    requires
        queue.len() > 0,
    ensures
        0 <= next_index(queue) < queue.len(),
        forall|j: int| 0 <= j < queue.len() ==> (#[trigger] queue[j]).rank() <= queue[next_index(queue)].rank(),
        forall|j: int| 0 <= j < next_index(queue) ==> (#[trigger] queue[j]).rank() < queue[next_index(queue)].rank(),
    decreases queue.len(),
{
    if queue.len() > 1 {
        let front = queue.drop_last();
        lemma_next_index(front);
        let best = next_index(front);
        assert(front[best] == queue[best]);
        assert forall|j: int| 0 <= j < queue.len() implies (#[trigger] queue[j]).rank()
            <= queue[next_index(queue)].rank() by {
            if j < queue.len() - 1 {
                assert(front[j] == queue[j]);
            }
        }
        assert forall|j: int| 0 <= j < next_index(queue) implies (#[trigger] queue[j]).rank()
            < queue[next_index(queue)].rank() by {
            if j < queue.len() - 1 {
                assert(front[j] == queue[j]);
            }
        }
    }
}

/// Finds the update that leaves `queue` next.
pub fn find_next(queue: &Vec<WorldUpdate<WorldUpdateEventType>>) -> (best: usize)
    requires
        queue.len() > 0,
    ensures
        best == next_index(queue@),
        best < queue.len(),
{
    let mut best: usize = 0;
    let mut i: usize = 1;
    assert(queue@.take(1).len() == 1);
    while i < queue.len()
        invariant
            1 <= i <= queue.len(),
            best < i,
            best == next_index(queue@.take(i as int)),
        decreases queue.len() - i,
    {
        proof {
            let longer = queue@.take(i + 1);
            assert(longer.drop_last() =~= queue@.take(i as int));
            assert(longer.last() == queue@[i as int]);
            assert(longer[best as int] == queue@[best as int]);
        }
        if queue[i].priority() > queue[best].priority() {
            best = i;
        }
        i += 1;
    }
    assert(queue@.take(queue.len() as int) =~= queue@);
    best
}

} // verus!
