//! Properties that relate several store operations, stated over the abstract
//! states that the operations' own contracts describe.
use crate::db::{lookup_error, with_task, without_task};
use crate::model::{StoreError, TaskFields, UserFields};
use vstd::prelude::*;

verus! {

/// One fresh insertion per step: `ids[i]` is absent from `sets[i]`, and
/// `sets[i + 1]` is `sets[i]` with `ids[i]` added.
pub open spec fn fresh_steps(sets: Seq<Set<u128>>, ids: Seq<u128>) -> bool {
    &&& sets.len() == ids.len() + 1
    &&& forall|i: int|
        0 <= i < ids.len() ==> !sets[i].contains(#[trigger] ids[i]) && sets[i + 1] == sets[i].insert(
            ids[i],
        )
}

proof fn lemma_inserted_stays(sets: Seq<Set<u128>>, ids: Seq<u128>, i: int, k: int)
    requires
        fresh_steps(sets, ids),
        0 <= i < k <= ids.len(),
    ensures
        sets[k].contains(ids[i]),
    decreases k - i,
{
    if k > i + 1 {
        lemma_inserted_stays(sets, ids, i, k - 1);
        assert(sets[k] == sets[k - 1].insert(ids[k - 1]));
    } else {
        assert(sets[i + 1] == sets[i].insert(ids[i]));
    }
}

/// Identifiers each chosen fresh against a growing set are pairwise distinct.
pub proof fn lemma_fresh_ids_distinct(sets: Seq<Set<u128>>, ids: Seq<u128>)
    requires
        fresh_steps(sets, ids),
    ensures
        forall|i: int, j: int| 0 <= i < j < ids.len() ==> ids[i] != ids[j],
{
    assert forall|i: int, j: int| 0 <= i < j < ids.len() implies ids[i] != ids[j] by {
        lemma_inserted_stays(sets, ids, i, j);
        assert(!sets[j].contains(ids[j]));
    }
}

/// Any run of user creations returns pairwise distinct identifiers: each
/// step is the state change that `create_user_in_db` promises.
pub proof fn lemma_user_ids_distinct(
    states: Seq<Map<u128, UserFields>>,
    ids: Seq<u128>,
    names: Seq<Seq<char>>,
)
    requires
        states.len() == ids.len() + 1,
        names.len() == ids.len(),
        forall|i: int|
            0 <= i < ids.len() ==> !states[i].contains_key(#[trigger] ids[i]) && states[i + 1]
                == states[i].insert(ids[i], UserFields { name: names[i], tasks: Map::empty() }),
    ensures
        forall|i: int, j: int| 0 <= i < j < ids.len() ==> ids[i] != ids[j],
{
    let sets = Seq::new(states.len(), |i: int| states[i].dom());
    assert forall|i: int| 0 <= i < ids.len() implies !sets[i].contains(#[trigger] ids[i])
        && sets[i + 1] == sets[i].insert(ids[i]) by {
        assert(states[i + 1].dom() =~= states[i].dom().insert(ids[i]));
    }
    lemma_fresh_ids_distinct(sets, ids);
}

/// The step that `create_task_for_user` promises on success: user `uid`
/// exists, `tid` is new among its tasks, and the task `t` is stored under it.
pub open spec fn task_created(
    before: Map<u128, UserFields>,
    after: Map<u128, UserFields>,
    uid: u128,
    tid: u128,
    t: TaskFields,
) -> bool {
    &&& before.contains_key(uid)
    &&& !before[uid].tasks.contains_key(tid)
    &&& after == with_task(before, uid, tid, t)
}

/// Any run of task creations for one user returns pairwise distinct task
/// identifiers.
pub proof fn lemma_task_ids_distinct(
    states: Seq<Map<u128, UserFields>>,
    uid: u128,
    ids: Seq<u128>,
    tasks: Seq<TaskFields>,
)
    requires
        states.len() == ids.len() + 1,
        tasks.len() == ids.len(),
        forall|i: int|
            0 <= i < ids.len() ==> task_created(states[i], states[i + 1], uid, #[trigger] ids[i], tasks[i]),
    ensures
        forall|i: int, j: int| 0 <= i < j < ids.len() ==> ids[i] != ids[j],
{
    let sets = Seq::new(states.len(), |i: int| states[i][uid].tasks.dom());
    assert forall|i: int| 0 <= i < ids.len() implies !sets[i].contains(#[trigger] ids[i])
        && sets[i + 1] == sets[i].insert(ids[i]) by {
        assert(task_created(states[i], states[i + 1], uid, ids[i], tasks[i]));
        assert(states[i + 1][uid].tasks.dom() =~= states[i][uid].tasks.dom().insert(ids[i]));
    }
    lemma_fresh_ids_distinct(sets, ids);
}

proof fn lemma_created_task_stays(
    states: Seq<Map<u128, UserFields>>,
    uid: u128,
    ids: Seq<u128>,
    tasks: Seq<TaskFields>,
    i: int,
    k: int,
)
    requires
        states.len() == ids.len() + 1,
        tasks.len() == ids.len(),
        forall|i: int|
            0 <= i < ids.len() ==> task_created(states[i], states[i + 1], uid, #[trigger] ids[i], tasks[i]),
        forall|i: int, j: int| 0 <= i < j < ids.len() ==> ids[i] != ids[j],
        0 <= i < k <= ids.len(),
    ensures
        states[k].contains_key(uid),
        states[k][uid].tasks.contains_key(ids[i]),
        states[k][uid].tasks[ids[i]] == tasks[i],
    decreases k - i,
{
    assert(task_created(states[k - 1], states[k], uid, ids[k - 1], tasks[k - 1]));
    if k > i + 1 {
        lemma_created_task_stays(states, uid, ids, tasks, i, k - 1);
    }
}

/// No creation is lost: after a run of task creations for one user, each
/// created task is present under its identifier with the fields it was
/// created with.
pub proof fn lemma_no_lost_creation(
    states: Seq<Map<u128, UserFields>>,
    uid: u128,
    ids: Seq<u128>,
    tasks: Seq<TaskFields>,
)
    requires
        states.len() == ids.len() + 1,
        tasks.len() == ids.len(),
        forall|i: int|
            0 <= i < ids.len() ==> task_created(states[i], states[i + 1], uid, #[trigger] ids[i], tasks[i]),
    ensures
        forall|i: int|
            0 <= i < ids.len() ==> {
                let last = states[ids.len() as int];
                &&& lookup_error(last, uid, #[trigger] ids[i]) is None
                &&& last[uid].tasks[ids[i]] == tasks[i]
            },
{
    lemma_task_ids_distinct(states, uid, ids, tasks);
    assert forall|i: int| 0 <= i < ids.len() implies {
        let last = states[ids.len() as int];
        &&& lookup_error(last, uid, #[trigger] ids[i]) is None
        &&& last[uid].tasks[ids[i]] == tasks[i]
    } by {
        lemma_created_task_stays(states, uid, ids, tasks, i, ids.len() as int);
    }
}

/// Creating a task for user `a` leaves every other user exactly as it was,
/// so the new task is never seen through another user.
pub proof fn lemma_creation_scoped(
    before: Map<u128, UserFields>,
    after: Map<u128, UserFields>,
    a: u128,
    tid: u128,
    t: TaskFields,
    b: u128,
)
    requires
        task_created(before, after, a, tid, t),
        b != a,
    ensures
        after.contains_key(b) == before.contains_key(b),
        before.contains_key(b) ==> after[b] == before[b],
        forall|k: u128| #[trigger] lookup_error(after, b, k) == lookup_error(before, b, k),
{
}

/// A task stored with fields `t` is then found, with exactly those fields.
pub proof fn lemma_create_then_get(s: Map<u128, UserFields>, uid: u128, tid: u128, t: TaskFields)
    requires
        s.contains_key(uid),
    ensures
        lookup_error(with_task(s, uid, tid, t), uid, tid) is None,
        with_task(s, uid, tid, t)[uid].tasks[tid] == t,
{
}

/// After an update with fields `t`, a lookup returns exactly `t`: nothing of
/// the earlier fields remains.
pub proof fn lemma_update_then_get(s: Map<u128, UserFields>, uid: u128, tid: u128, t: TaskFields)
    requires
        lookup_error(s, uid, tid) is None,
    ensures
        lookup_error(with_task(s, uid, tid, t), uid, tid) is None,
        with_task(s, uid, tid, t)[uid].tasks[tid] == t,
        with_task(s, uid, tid, t)[uid].name == s[uid].name,
{
}

/// After a deletion, looking the task up again (to get, update or delete
/// it) fails with `TaskNotFound`.
pub proof fn lemma_delete_terminal(s: Map<u128, UserFields>, uid: u128, tid: u128)
    requires
        lookup_error(s, uid, tid) is None,
    ensures
        lookup_error(without_task(s, uid, tid), uid, tid) == Some(StoreError::TaskNotFound(tid)),
{
}

/// For an absent user every task lookup fails with `UserNotFound`, whatever
/// the task identifier.
pub proof fn lemma_user_error_first(s: Map<u128, UserFields>, uid: u128, tid: u128)
    requires
        !s.contains_key(uid),
    ensures
        lookup_error(s, uid, tid) == Some(StoreError::UserNotFound(uid)),
{
}

} // verus!
