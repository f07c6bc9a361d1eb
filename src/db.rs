use crate::ids::{fresh_key, random_id};
use crate::model::{
    tasks_keyed_by_id, tasks_view, CreateTask, CreateUser, StoreError, Task, TaskFields, User,
    UserFields,
};
use std::collections::HashMap;
use vstd::prelude::*;

verus! {

broadcast use vstd::std_specs::hash::group_hash_axioms;

/// The store: every user, keyed by identifier, each owning its tasks.
pub struct Db {
    users: HashMap<u128, User>,
}

/// The abstract view of the user collection: identifier to fields.
pub open spec fn users_view(m: Map<u128, User>) -> Map<u128, UserFields> {
    m.map_values(|u: User| u@)
}

/// The state after a task with fields `t` is stored under `tid` for user `uid`.
pub open spec fn with_task(
    s: Map<u128, UserFields>,
    uid: u128,
    tid: u128,
    t: TaskFields,
) -> Map<u128, UserFields> {
    s.insert(uid, UserFields { name: s[uid].name, tasks: s[uid].tasks.insert(tid, t) })
}

/// The state after task `tid` of user `uid` is removed.
pub open spec fn without_task(s: Map<u128, UserFields>, uid: u128, tid: u128) -> Map<
    u128,
    UserFields,
> {
    s.insert(uid, UserFields { name: s[uid].name, tasks: s[uid].tasks.remove(tid) })
}

/// Which failure, if any, a lookup of task `tid` under user `uid` meets:
/// a missing user is reported before a missing task.
pub open spec fn lookup_error(s: Map<u128, UserFields>, uid: u128, tid: u128) -> Option<
    StoreError,
> {
    if !s.contains_key(uid) {
        Some(StoreError::UserNotFound(uid))
    } else if !s[uid].tasks.contains_key(tid) {
        Some(StoreError::TaskNotFound(tid))
    } else {
        None
    }
}

proof fn lemma_tasks_insert(m: Map<u128, Task>, k: u128, t: Task)
    ensures
        tasks_view(m.insert(k, t)) == tasks_view(m).insert(k, t@),
{
    assert(tasks_view(m.insert(k, t)) =~= tasks_view(m).insert(k, t@));
}

proof fn lemma_tasks_remove(m: Map<u128, Task>, k: u128)
    ensures
        tasks_view(m.remove(k)) == tasks_view(m).remove(k),
{
    assert(tasks_view(m.remove(k)) =~= tasks_view(m).remove(k));
}

proof fn lemma_users_insert(m: Map<u128, User>, k: u128, u: User)
    ensures
        users_view(m.insert(k, u)) == users_view(m).insert(k, u@),
{
    assert(users_view(m.insert(k, u)) =~= users_view(m).insert(k, u@));
}

proof fn lemma_users_reinsert(m: Map<u128, User>, k: u128, u: User)
    requires
        m.contains_key(k),
    ensures
        users_view(m.remove(k).insert(k, u)) == users_view(m).insert(k, u@),
{
    assert(m.remove(k).insert(k, u) =~= m.insert(k, u));
    lemma_users_insert(m, k, u);
}

impl View for Db {
    type V = Map<u128, UserFields>;

    closed spec fn view(&self) -> Map<u128, UserFields> {
        users_view(self.users@)
    }
}

impl Db {
    /// Every user is stored under its own identifier, and so is each of its tasks.
    pub closed spec fn wf(&self) -> bool {
        forall|k: u128| #[trigger]
            self.users@.contains_key(k) ==> self.users@[k].id == k && self.users@[k].wf()
    }

    /// An empty store.
    pub fn new() -> (r: Db)
        ensures
            r.wf(),
            r@ == Map::<u128, UserFields>::empty(),
    {
        let r = Db { users: HashMap::new() };
        assert(r@ =~= Map::<u128, UserFields>::empty());
        r
    }

    pub fn contains_user(&self, user_id: u128) -> (r: bool)
        ensures
            r == self@.contains_key(user_id),
    {
        self.users.contains_key(&user_id)
    }

    /// The user stored under `user_id`, if any.
    pub fn user(&self, user_id: u128) -> (r: Option<&User>)
        requires
            self.wf(),
        ensures
            match r {
                Some(u) => self@.contains_key(user_id) && u@ == self@[user_id] && u.id == user_id
                    && tasks_keyed_by_id(u.tasks@),
                None => !self@.contains_key(user_id),
            },
    {
        self.users.get(&user_id)
    }
}

/// Adds a user named `user_data.name` with no tasks, under a new identifier.
pub fn create_user_in_db(db: &mut Db, user_data: &CreateUser) -> (id: u128)
    requires
        old(db).wf(),
    ensures
        final(db).wf(),
        !old(db)@.contains_key(id),
        final(db)@ == old(db)@.insert(
            id,
            UserFields { name: user_data.name@, tasks: Map::empty() },
        ),
{
    let id = fresh_key(&db.users, random_id());
    let user = User { id, name: user_data.name.clone(), tasks: HashMap::new() };
    db.users.insert(id, user);
    proof {
        lemma_users_insert(old(db).users@, id, user);
        assert(tasks_view(user.tasks@) =~= Map::empty());
    }
    id
}

/// Replaces every field of task `task_id` of user `user_id` by those of
/// `task_data`, and returns the task as it now stands.
pub fn update_task_in_db(db: &mut Db, user_id: u128, task_id: u128, task_data: &CreateTask) -> (r:
    Result<Task, StoreError>)
    requires
        old(db).wf(),
    ensures
        final(db).wf(),
        match r {
            Ok(t) => {
                &&& lookup_error(old(db)@, user_id, task_id) is None
                &&& t.id == task_id
                &&& t@ == task_data@
                &&& final(db)@ == with_task(old(db)@, user_id, task_id, task_data@)
            },
            Err(e) => {
                &&& lookup_error(old(db)@, user_id, task_id) == Some(e)
                &&& final(db)@ == old(db)@
            },
        },
{
    if !db.users.contains_key(&user_id) {
        return Err(StoreError::UserNotFound(user_id));
    }
    if !db.users.get(&user_id).unwrap().tasks.contains_key(&task_id) {
        return Err(StoreError::TaskNotFound(task_id));
    }
    let ghost u0 = db.users@[user_id];
    let mut user = db.users.remove(&user_id).unwrap();
    let updated = Task {
        id: task_id,
        title: task_data.title.clone(),
        description: task_data.description.clone(),
        due_date: task_data.due_date.clone(),
        status: task_data.status,
    };
    let result = updated.duplicate();
    user.tasks.insert(task_id, updated);
    proof {
        lemma_tasks_insert(u0.tasks@, task_id, updated);
        lemma_users_reinsert(old(db).users@, user_id, user);
    }
    db.users.insert(user_id, user);
    Ok(result)
}

/// Stores a task with the fields of `task_data` for user `user_id`, under a
/// new identifier unused among that user's tasks.
pub fn create_task_for_user(db: &mut Db, user_id: u128, task_data: &CreateTask) -> (r: Result<
    u128,
    StoreError,
>)
    requires
        old(db).wf(),
    ensures
        final(db).wf(),
        match r {
            Ok(tid) => {
                &&& old(db)@.contains_key(user_id)
                &&& !old(db)@[user_id].tasks.contains_key(tid)
                &&& final(db)@ == with_task(old(db)@, user_id, tid, task_data@)
            },
            Err(e) => {
                &&& !old(db)@.contains_key(user_id)
                &&& e == StoreError::UserNotFound(user_id)
                &&& final(db)@ == old(db)@
            },
        },
{
    if !db.users.contains_key(&user_id) {
        return Err(StoreError::UserNotFound(user_id));
    }
    let ghost u0 = db.users@[user_id];
    let mut user = db.users.remove(&user_id).unwrap();
    let task_id = fresh_key(&user.tasks, random_id());
    let task = Task {
        id: task_id,
        title: task_data.title.clone(),
        description: task_data.description.clone(),
        due_date: task_data.due_date.clone(),
        status: task_data.status,
    };
    user.tasks.insert(task_id, task);
    proof {
        lemma_tasks_insert(u0.tasks@, task_id, task);
        lemma_users_reinsert(old(db).users@, user_id, user);
    }
    db.users.insert(user_id, user);
    Ok(task_id)
}

/// Task `task_id` of user `user_id`.
pub fn get_task_for_user(db: &Db, user_id: u128, task_id: u128) -> (r: Result<Task, StoreError>)
    requires
        db.wf(),
    ensures
        match r {
            Ok(t) => {
                &&& lookup_error(db@, user_id, task_id) is None
                &&& t.id == task_id
                &&& t@ == db@[user_id].tasks[task_id]
            },
            Err(e) => lookup_error(db@, user_id, task_id) == Some(e),
        },
{
    match db.users.get(&user_id) {
        None => Err(StoreError::UserNotFound(user_id)),
        Some(user) => match user.tasks.get(&task_id) {
            None => Err(StoreError::TaskNotFound(task_id)),
            Some(task) => Ok(task.duplicate()),
        },
    }
}

/// Removes task `task_id` from user `user_id`.
pub fn delete_task_from_db(db: &mut Db, user_id: u128, task_id: u128) -> (r: Result<(), StoreError>)
    requires
        old(db).wf(),
    ensures
        final(db).wf(),
        match r {
            Ok(()) => {
                &&& lookup_error(old(db)@, user_id, task_id) is None
                &&& final(db)@ == without_task(old(db)@, user_id, task_id)
            },
            Err(e) => {
                &&& lookup_error(old(db)@, user_id, task_id) == Some(e)
                &&& final(db)@ == old(db)@
            },
        },
{
    if !db.users.contains_key(&user_id) {
        return Err(StoreError::UserNotFound(user_id));
    }
    if !db.users.get(&user_id).unwrap().tasks.contains_key(&task_id) {
        return Err(StoreError::TaskNotFound(task_id));
    }
    let ghost u0 = db.users@[user_id];
    let mut user = db.users.remove(&user_id).unwrap();
    user.tasks.remove(&task_id);
    proof {
        lemma_tasks_remove(u0.tasks@, task_id);
        lemma_users_reinsert(old(db).users@, user_id, user);
    }
    db.users.insert(user_id, user);
    Ok(())
}

/// A copy of every task of user `user_id`, keyed by task identifier.
pub fn get_tasks_for_user(db: &Db, user_id: u128) -> (r: Result<HashMap<u128, Task>, StoreError>)
    requires
        db.wf(),
    ensures
        match r {
            Ok(m) => {
                &&& db@.contains_key(user_id)
                &&& tasks_view(m@) == db@[user_id].tasks
                &&& tasks_keyed_by_id(m@)
            },
            Err(e) => !db@.contains_key(user_id) && e == StoreError::UserNotFound(user_id),
        },
{
    match db.users.get(&user_id) {
        None => Err(StoreError::UserNotFound(user_id)),
        Some(user) => Ok(user.tasks.clone()),
    }
}

} // verus!
