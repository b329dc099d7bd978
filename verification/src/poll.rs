//! The aggregator's polling of finalised blocks: which slots a poll
//! processes, where the next poll starts, and how long to wait before it.

use vstd::prelude::*;

verus! {

/// What one poll does with the finalised blocks it fetched: the slots whose
/// blocks it processes, and the slot the next poll starts at.
pub struct PollBatch {
    pub slots: Vec<u64>,
    pub next_start_slot: u64,
}

/// Plans a poll from the slots of the finalised blocks fetched from its
/// start slot on: every block but the last is processed now, and the last
/// one starts the next poll, so that it is fetched and processed once.
/// A poll that fetched no block is not admitted: the aggregator fails on it.
pub fn plan_poll_batch(blocks: &Vec<u64>) -> (res: PollBatch)
    requires
        blocks@.len() > 0,
    ensures
        res.slots@ == blocks@.drop_last(),
        res.next_start_slot == blocks@.last(),
{
    let n = blocks.len() - 1;
    let mut slots: Vec<u64> = Vec::new();
    let mut i: usize = 0;
    while i < n
        invariant
            n == blocks@.len() - 1,
            i <= n,
            slots@ == blocks@.take(i as int),
        decreases n - i,
    {
        slots.push(blocks[i]);
        assert(blocks@.take(i + 1) =~= blocks@.take(i as int).push(blocks@[i as int]));
        i = i + 1;
    }
    assert(blocks@.take(n as int) =~= blocks@.drop_last());
    PollBatch { slots, next_start_slot: blocks[n] }
}

/// Whether each slot of `s` is greater than the ones before it.
pub open spec fn strictly_increasing(s: Seq<u64>) -> bool {
    forall|i: int, j: int| 0 <= i < j < s.len() ==> s[i] < s[j]
}

/// Whether a run of polls fetched what the block source promises: each
/// poll fetched at least one block, in increasing slot order, and each
/// fetch after the first began with the block its poll started at, the
/// last block of the fetch before.
pub open spec fn chained(fetches: Seq<Seq<u64>>) -> bool {
    &&& forall|i: int| 0 <= i < fetches.len() ==> #[trigger] fetches[i].len() > 0
    &&& forall|i: int| 0 <= i < fetches.len() ==> strictly_increasing(#[trigger] fetches[i])
    &&& forall|i: int| 0 <= i < fetches.len() - 1 ==> #[trigger] fetches[i + 1][0] == fetches[i].last()
}

/// The slots that a run of polls processed, in order.
pub open spec fn processed_slots(fetches: Seq<Seq<u64>>) -> Seq<u64>
    decreases fetches.len(),
{
    if fetches.len() == 0 {
        Seq::empty()
    } else {
        processed_slots(fetches.drop_last()) + fetches.last().drop_last()
    }
}

/// The distinct blocks that a run of polls fetched, in order: each fetch
/// after the first adds what follows the block it started at.
pub open spec fn fetched_slots(fetches: Seq<Seq<u64>>) -> Seq<u64>
    decreases fetches.len(),
{
    if fetches.len() == 0 {
        Seq::empty()
    } else if fetches.len() == 1 {
        fetches[0]
    } else {
        fetched_slots(fetches.drop_last()) + fetches.last().drop_first()
    }
}

/// Polling processes every fetched block exactly once: over a run of polls
/// whose fetches chain, the processed slots followed by the slot the next
/// poll starts at are exactly the distinct fetched blocks, in increasing
/// order, so no slot is processed twice and none is skipped.
pub proof fn lemma_polls_process_each_block_once(fetches: Seq<Seq<u64>>)
    requires
        fetches.len() > 0,
        chained(fetches),
    ensures
        processed_slots(fetches).push(fetches.last().last()) == fetched_slots(fetches),
        strictly_increasing(fetched_slots(fetches)),
        strictly_increasing(processed_slots(fetches)),
        processed_slots(fetches).no_duplicates(),
    decreases fetches.len(),
{
    let last = fetches.last();
    assert(last.len() > 0 && strictly_increasing(last)) by {
        assert(fetches[fetches.len() - 1].len() > 0);
        assert(strictly_increasing(fetches[fetches.len() - 1]));
    }
    if fetches.len() == 1 {
        assert(processed_slots(fetches.drop_last()) =~= Seq::<u64>::empty());
        assert(processed_slots(fetches).push(last.last()) =~= fetches[0]);
    } else {
        let before = fetches.drop_last();
        assert(chained(before)) by {
            assert forall|i: int| 0 <= i < before.len() implies #[trigger] before[i].len() > 0 by {
                assert(fetches[i].len() > 0);
            }
            assert forall|i: int| 0 <= i < before.len() implies strictly_increasing(#[trigger] before[i]) by {
                assert(strictly_increasing(fetches[i]));
            }
            assert forall|i: int| 0 <= i < before.len() - 1 implies #[trigger] before[i + 1][0] == before[i].last() by {
                assert(fetches[i + 1][0] == fetches[i].last());
            }
        }
        lemma_polls_process_each_block_once(before);
        let p = processed_slots(before);
        let f = fetched_slots(before);
        let prev_last = before.last().last();
        assert(last[0] == prev_last) by {
            assert(fetches[fetches.len() - 2 + 1][0] == fetches[fetches.len() - 2].last());
        }
        assert(f == p.push(prev_last));
        assert(fetched_slots(fetches) == f + last.drop_first());
        assert(processed_slots(fetches) == p + last.drop_last());
        assert(processed_slots(fetches).push(last.last()) =~= f + last.drop_first());
        let g = fetched_slots(fetches);
        assert forall|i: int, j: int| 0 <= i < j < g.len() implies g[i] < g[j] by {
            if j < f.len() {
                assert(g[i] == f[i] && g[j] == f[j]);
            } else if i < f.len() {
                assert(g[j] == last[j - f.len() + 1]);
                assert(f[f.len() - 1] == last[0]);
                if i < f.len() - 1 {
                    assert(f[i] < f[f.len() - 1]);
                }
                assert(last[0] < last[j - f.len() + 1]);
            } else {
                assert(g[i] == last[i - f.len() + 1]);
                assert(g[j] == last[j - f.len() + 1]);
            }
        }
    }
    let p = processed_slots(fetches);
    let g = fetched_slots(fetches);
    assert forall|i: int, j: int| 0 <= i < j < p.len() implies p[i] < p[j] by {
        assert(p[i] == g[i] && p[j] == g[j]);
    }
    assert forall|i: int, j: int| 0 <= i < p.len() && 0 <= j < p.len() && i != j implies p[i] != p[j] by {
        if i < j {
            assert(p[i] < p[j]);
        } else {
            assert(p[j] < p[i]);
        }
    }
}

/// How a poll ends: with a wait before the next poll, or at once when it
/// took longer than the poll interval.
#[derive(Debug, Clone, Copy, PartialEq, Eq, Structural)]
pub enum PollDelay {
    /// The poll took longer than the interval: warn and poll again at once.
    Overrun,
    /// Sleep this many milliseconds before the next poll.
    Wait(u64),
}

/// The delay after a poll that took `elapsed_millis`, with a poll interval
/// of `interval_millis`: an overrun when the poll took longer than the
/// interval, else the rest of the interval, taken modulo 2^64 as a count
/// of milliseconds fits in 64 bits.
pub fn poll_delay(elapsed_millis: u128, interval_millis: u128) -> (res: PollDelay)
    ensures
        elapsed_millis > interval_millis ==> res == PollDelay::Overrun,
        elapsed_millis <= interval_millis ==> res == PollDelay::Wait(
            ((interval_millis - elapsed_millis) % 0x1_0000_0000_0000_0000) as u64,
        ),
        res matches PollDelay::Wait(w) ==> (interval_millis - elapsed_millis <= u64::MAX
            ==> w + elapsed_millis == interval_millis),
{
    if elapsed_millis > interval_millis {
        PollDelay::Overrun
    } else {
        let rest: u128 = interval_millis - elapsed_millis;
        let wait: u64 = rest as u64;
        assert(wait as u128 == rest % 0x1_0000_0000_0000_0000) by (bit_vector)
            requires
                wait == rest as u64,
        ;
        PollDelay::Wait(wait)
    }
}

} // verus!
