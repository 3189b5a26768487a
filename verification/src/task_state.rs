//! The states of the five tasks of a record, and how they are set back after the platform refused
//! requests.

use vstd::prelude::*;

verus! {

/// A record whose task states change.
#[derive(Debug, Clone, Copy, PartialEq, Eq)]
pub struct StateChange {
    pub id: i32,
    pub states: [u32; 5],
}

/// The state of a task that was not begun.
pub const NOT_STARTED: u32 = 0;

/// The state of a task that is done.
pub const COMPLETED: u32 = 1;

/// The state of a task that is under way.
pub const RUNNING: u32 = 2;

/// The state of a task that failed.
pub const FAILED: u32 = 3;

/// The task is begun again.
pub open spec fn is_set_back(state: u32) -> bool {
    state == FAILED || state == RUNNING || state == NOT_STARTED
}

/// The state that a task is given: that of one not begun, if it is begun again.
pub open spec fn set_back(state: u32) -> u32 {
    if is_set_back(state) {
        NOT_STARTED
    } else {
        state
    }
}

/// All tasks are done.
pub open spec fn all_completed(states: Seq<u32>) -> bool {
    forall|i: int| 0 <= i < states.len() ==> #[trigger] states[i] == COMPLETED
}

/// Some task is begun again.
pub open spec fn needs_reset(states: Seq<u32>) -> bool {
    !all_completed(states) && exists|i: int|
        0 <= i < states.len() && is_set_back(#[trigger] states[i])
}

/// The states after all tasks that are begun again were set back.
pub open spec fn reset(states: Seq<u32>) -> Seq<u32> {
    states.map_values(|state: u32| set_back(state))
}

/// Sets the tasks of a record back that failed, are under way or were not begun. Gives nothing if
/// there are none.
pub fn reset_states(states: &[u32; 5]) -> (changed: Option<[u32; 5]>)
    ensures
        changed is Some <==> needs_reset(states@),
        changed matches Some(after) ==> after@ == reset(states@),
{
    let mut after: [u32; 5] = *states;
    let mut any: bool = false;
    let mut complete: bool = true;
    let mut k: usize = 0;
    while k < 5
        invariant
            k <= 5,
            states@.len() == 5,
            after@.len() == 5,
            any <==> exists|i: int| 0 <= i < k && is_set_back(#[trigger] states@[i]),
            complete <==> forall|i: int| 0 <= i < k ==> #[trigger] states@[i] == COMPLETED,
            forall|i: int| 0 <= i < k ==> #[trigger] after@[i] == set_back(states@[i]),
            forall|i: int| k <= i < 5 ==> #[trigger] after@[i] == states@[i],
        decreases 5 - k,
    {
        let state: u32 = states[k];
        if state != COMPLETED {
            complete = false;
        }
        if state == FAILED || state == RUNNING || state == NOT_STARTED {
            assert(is_set_back(states@[k as int]));
            after[k] = NOT_STARTED;
            any = true;
        }
        k += 1;
    }
    assert(after@ =~= reset(states@));
    if !complete && any {
        Some(after)
    } else {
        None
    }
}

/// The records that have a task that is begun again, in order.
pub open spec fn records_to_reset(records: Seq<StateChange>) -> Seq<StateChange> {
    records.filter(|record: StateChange| needs_reset(record.states@))
}

/// Sets the tasks of all records back that failed, are under way or were not begun. Gives the new
/// states of the records that change.
pub fn reset_records(records: &Vec<StateChange>) -> (changes: Vec<StateChange>)
    ensures
        changes@.len() == records_to_reset(records@).len(),
        forall|i: int|
            0 <= i < changes@.len() ==> (#[trigger] changes@[i]).id == records_to_reset(
                records@,
            )[i].id && changes@[i].states@ == reset(records_to_reset(records@)[i].states@),
{
    let mut changes: Vec<StateChange> = Vec::new();
    let ghost wanted = |record: StateChange| needs_reset(record.states@);
    proof {
        reveal(Seq::filter);
        assert(records@.take(0).filter(wanted) =~= Seq::empty());
    }
    let mut k: usize = 0;
    while k < records.len()
        invariant
            k <= records@.len(),
            wanted == (|record: StateChange| needs_reset(record.states@)),
            changes@.len() == records@.take(k as int).filter(wanted).len(),
            forall|i: int|
                0 <= i < changes@.len() ==> (#[trigger] changes@[i]).id == records@.take(
                    k as int,
                ).filter(wanted)[i].id && changes@[i].states@ == reset(
                    records@.take(k as int).filter(wanted)[i].states@,
                ),
        decreases records@.len() - k,
    {
        let record = records[k];
        proof {
            assert(records@.take(k + 1).drop_last() =~= records@.take(k as int));
            assert(records@.take(k + 1).last() == record);
            reveal(Seq::filter);
        }
        let ghost before = records@.take(k as int).filter(wanted);
        let ghost after = records@.take(k + 1).filter(wanted);
        let ghost changes_before = changes@;
        match reset_states(&record.states) {
            Some(states) => {
                changes.push(StateChange { id: record.id, states });
                proof {
                    assert(after =~= before.push(record));
                    assert forall|i: int| 0 <= i < changes@.len() implies (
                    #[trigger] changes@[i]).id == after[i].id && changes@[i].states@ == reset(
                        after[i].states@,
                    ) by {
                        if i < before.len() {
                            assert(changes@[i] == changes_before[i]);
                            assert(after[i] == before[i]);
                        }
                    }
                }
            },
            None => {
                assert(after =~= before);
            },
        }
        k += 1;
    }
    assert(records@.take(records@.len() as int) =~= records@);
    changes
}

/// After a reset no task is under way or failed, what was done stays done, and a second reset
/// changes nothing more.
pub proof fn reset_is_clean(states: Seq<u32>)
    ensures
        reset(states).len() == states.len(),
        forall|i: int|
            0 <= i < states.len() ==> (#[trigger] reset(states)[i]) != RUNNING && reset(states)[i]
                != FAILED,
        forall|i: int|
            0 <= i < states.len() ==> ((#[trigger] reset(states)[i]) == COMPLETED <==> states[i]
                == COMPLETED),
        reset(reset(states)) == reset(states),
{
    assert(reset(reset(states)) =~= reset(states));
}

/// A record that is not reset holds no task that is under way, failed or was not begun.
pub proof fn only_clean_records_are_left(states: Seq<u32>)
    requires
        !needs_reset(states),
    ensures
        reset(states) == states,
        forall|i: int| 0 <= i < states.len() ==> !is_set_back(#[trigger] states[i]),
{
    assert forall|i: int| 0 <= i < states.len() implies !is_set_back(#[trigger] states[i]) by {
        if all_completed(states) {
            assert(states[i] == COMPLETED);
        }
    }
    assert(reset(states) =~= states);
}

/// A task that failed, is under way or was not begun is begun again, and every other task is left as
/// it is. A record is changed exactly if it holds such a task.
pub proof fn unfinished_tasks_begin_again(states: Seq<u32>, i: int)
    requires
        0 <= i < states.len(),
    ensures
        states[i] == 3 || states[i] == 2 || states[i] == 0 ==> reset(states)[i] == 0,
        states[i] != 3 && states[i] != 2 && states[i] != 0 ==> reset(states)[i] == states[i],
        states[i] == 3 || states[i] == 2 || states[i] == 0 ==> needs_reset(states),
        needs_reset(states) ==> exists|k: int|
            0 <= k < states.len() && (#[trigger] states[k] == 3 || states[k] == 2 || states[k]
                == 0),
{
    if states[i] == 3 || states[i] == 2 || states[i] == 0 {
        assert(is_set_back(states[i]));
        assert(states[i] != COMPLETED);
    }
    if needs_reset(states) {
        let k = choose|k: int| 0 <= k < states.len() && is_set_back(#[trigger] states[k]);
        assert(states[k] == 3 || states[k] == 2 || states[k] == 0);
    }
}

/// Exactly the records with a task that is begun again are changed, in their order, and none is
/// changed twice.
pub proof fn all_unfinished_records_are_reset(records: Seq<StateChange>, record: StateChange)
    ensures
        records_to_reset(records).len() <= records.len(),
        records_to_reset(records).contains(record) <==> records.contains(record) && exists|k: int|
            0 <= k < 5 && (#[trigger] record.states@[k] == 3 || record.states@[k] == 2
                || record.states@[k] == 0),
    decreases records.len(),
{
    reveal(Seq::filter);
    assert(record.states@.len() == 5);
    if exists|k: int|
        0 <= k < 5 && (#[trigger] record.states@[k] == 3 || record.states@[k] == 2
            || record.states@[k] == 0) {
        let k = choose|k: int|
            0 <= k < 5 && (#[trigger] record.states@[k] == 3 || record.states@[k] == 2
                || record.states@[k] == 0);
        unfinished_tasks_begin_again(record.states@, k);
    }
    if needs_reset(record.states@) {
        unfinished_tasks_begin_again(record.states@, 0);
    }
    if records.len() > 0 {
        let front = records.drop_last();
        let before = records_to_reset(front);
        let after = records_to_reset(records);
        all_unfinished_records_are_reset(front, record);
        if before.contains(record) {
            let k = choose|k: int| 0 <= k < before.len() && before[k] == record;
            assert(after[k] == record);
        }
        if front.contains(record) {
            let k = choose|k: int| 0 <= k < front.len() && front[k] == record;
            assert(records[k] == record);
        }
        if records.last() == record {
            assert(records[records.len() - 1] == record);
            if needs_reset(record.states@) {
                assert(after[before.len() as int] == record);
            }
        }
        if after.contains(record) {
            let k = choose|k: int| 0 <= k < after.len() && after[k] == record;
            if k < before.len() {
                assert(before[k] == record);
            }
        }
        if records.contains(record) && !front.contains(record) {
            let k = choose|k: int| 0 <= k < records.len() && records[k] == record;
            if k < front.len() {
                assert(front[k] == record);
            }
        }
    }
}

}
