//! The videos whose first page is not known yet are looked up in batches.

use vstd::prelude::*;

verus! {

/// The number of videos that are looked up at a time.
pub const FILL_BATCH: usize = 10;

/// The number of seconds between two batches.
pub const FILL_DELAY: u64 = 2;

/// The number of batches.
pub open spec fn batches(total: nat) -> nat {
    (total + FILL_BATCH - 1) as nat / FILL_BATCH as nat
}

/// What is looked up next.
#[derive(Debug, Clone, Copy, PartialEq, Eq, Structural)]
pub enum FillStep {
    /// All videos were looked up.
    Finished,
    /// The rest is left, because the work was cancelled.
    Cancelled,
    /// The videos from `start` on, up to but without `end`. Then there is a pause if `pause` is
    /// set.
    Batch { start: usize, end: usize, pause: bool },
}

/// The batch with this number.
pub open spec fn batch_at(index: int, total: int) -> FillStep {
    FillStep::Batch {
        start: (index * FILL_BATCH) as usize,
        end: if (index + 1) * FILL_BATCH <= total {
            ((index + 1) * FILL_BATCH) as usize
        } else {
            total as usize
        },
        pause: index + 1 < batches(total as nat),
    }
}

/// What is looked up after `index` batches of `total` videos.
pub fn fill_step(index: usize, total: usize, cancelled: bool) -> (step: FillStep)
    ensures
        step is Finished <==> index >= batches(total as nat),
        step is Cancelled <==> index < batches(total as nat) && cancelled,
        step is Batch ==> step == batch_at(index as int, total as int),
{
    let mut count: usize = total / FILL_BATCH;
    if total % FILL_BATCH != 0 {
        count = count + 1;
    }
    assert(count == batches(total as nat));
    if index >= count {
        return FillStep::Finished;
    }
    if cancelled {
        return FillStep::Cancelled;
    }
    assert(index * FILL_BATCH < total);
    let start: usize = index * FILL_BATCH;
    let end: usize = if total - start >= FILL_BATCH {
        start + FILL_BATCH
    } else {
        total
    };
    FillStep::Batch { start, end, pause: index < count - 1 }
}

/// Every video is looked up in one batch, and no batch is empty or larger than allowed.
pub proof fn batches_cover_all(total: usize, at: usize)
    requires
        at < total,
    ensures
        forall|index: int|
            0 <= index < batches(total as nat) ==> (#[trigger] batch_at(
                index,
                total as int,
            ))->start < batch_at(index, total as int)->end <= batch_at(index, total as int)->start
                + FILL_BATCH,
        forall|index: int|
            0 <= index < batches(total as nat) ==> ((#[trigger] batch_at(
                index,
                total as int,
            ))->start <= at < batch_at(index, total as int)->end <==> index == at as int
                / FILL_BATCH as int),
        (at as int / FILL_BATCH as int) < batches(total as nat),
{
}

/// There is a pause after every batch but the last.
pub proof fn pauses_stand_between_batches(total: usize, index: int)
    requires
        0 <= index < batches(total as nat),
    ensures
        batch_at(index, total as int)->pause <==> batch_at(index, total as int)->end < total,
{
}

/// The number of the first page, if the video has pages.
pub fn first_cid(page_cids: &Vec<i64>) -> (cid: Option<i64>)
    ensures
        cid == if page_cids@.len() > 0 {
            Some(page_cids@[0])
        } else {
            None::<i64>
        },
{
    if page_cids.len() > 0 {
        Some(page_cids[0])
    } else {
        None
    }
}

/// Ten videos are looked up at a time, from the first one on without a gap; only the last batch may
/// be smaller. Two seconds lie between two batches.
pub proof fn batches_are_tens(total: usize, index: int)
    requires
        0 <= index < batches(total as nat),
    ensures
        batch_at(index, total as int)->start == 10 * index,
        batch_at(index, total as int)->end == if total - 10 * index > 10 {
            10 * index + 10
        } else {
            total as int
        },
        10 * (batches(total as nat) - 1) < total <= 10 * batches(total as nat),
        FILL_DELAY == 2,
{
}

}
