use std::collections::HashMap;
use task_store::{
    create_task_for_user, create_user_in_db, delete_task_from_db, fresh_key, get_task_for_user,
    get_tasks_for_user, update_task_in_db, CreateTask, CreateUser, Db, StoreError, TaskStatus,
};

fn input(title: &str, description: &str, due_date: &str, status: TaskStatus) -> CreateTask {
    CreateTask {
        title: String::from(title),
        description: String::from(description),
        due_date: String::from(due_date),
        status,
    }
}

fn named(name: &str) -> CreateUser {
    CreateUser {
        name: String::from(name),
    }
}

#[test]
fn john_doe_scenario() {
    let mut db = Db::new();
    let u = create_user_in_db(&mut db, &named("John Doe"));
    let t = create_task_for_user(
        &mut db,
        u,
        &input("New Task", "Task Description", "2023-12-31", TaskStatus::ToDo),
    )
    .unwrap();

    let got = get_task_for_user(&db, u, t).unwrap();
    assert_eq!(got.id, t);
    assert_eq!(got.title, "New Task");
    assert_eq!(got.description, "Task Description");
    assert_eq!(got.due_date, "2023-12-31");
    assert_eq!(got.status, TaskStatus::ToDo);

    let updated = update_task_in_db(
        &mut db,
        u,
        t,
        &input("Updated Task", "Updated Description", "2024-01-31", TaskStatus::InProgress),
    )
    .unwrap();
    assert_eq!(updated.status, TaskStatus::InProgress);

    assert_eq!(delete_task_from_db(&mut db, u, t), Ok(()));
    assert_eq!(get_task_for_user(&db, u, t).unwrap_err(), StoreError::TaskNotFound(t));
}

#[test]
fn user_ids_are_distinct() {
    let mut db = Db::new();
    let mut ids = Vec::new();
    for i in 0..50 {
        ids.push(create_user_in_db(&mut db, &named(&format!("user {}", i))));
    }
    for i in 0..ids.len() {
        for j in (i + 1)..ids.len() {
            assert_ne!(ids[i], ids[j]);
        }
        assert!(db.contains_user(ids[i]));
    }
}

#[test]
fn task_ids_are_distinct_and_none_lost() {
    let mut db = Db::new();
    let u = create_user_in_db(&mut db, &named("Ann"));
    let mut ids = Vec::new();
    for i in 0..40 {
        let title = format!("task {}", i);
        ids.push(create_task_for_user(&mut db, u, &input(&title, "d", "2024-02-29", TaskStatus::Done)).unwrap());
    }
    let all = get_tasks_for_user(&db, u).unwrap();
    assert_eq!(all.len(), 40);
    for (i, id) in ids.iter().enumerate() {
        assert_eq!(all[id].title, format!("task {}", i));
        assert_eq!(all[id].id, *id);
    }
}

#[test]
fn tasks_are_scoped_to_their_user() {
    let mut db = Db::new();
    let a = create_user_in_db(&mut db, &named("A"));
    let b = create_user_in_db(&mut db, &named("B"));
    let t = create_task_for_user(&mut db, a, &input("x", "y", "z", TaskStatus::ToDo)).unwrap();
    assert!(get_tasks_for_user(&db, b).unwrap().is_empty());
    assert_eq!(get_task_for_user(&db, b, t).unwrap_err(), StoreError::TaskNotFound(t));
    assert_eq!(get_tasks_for_user(&db, a).unwrap().len(), 1);
}

#[test]
fn round_trip_keeps_every_field() {
    let mut db = Db::new();
    let u = create_user_in_db(&mut db, &named("R"));
    let t = create_task_for_user(&mut db, u, &input("", "long text", "not a date", TaskStatus::Done)).unwrap();
    let got = get_task_for_user(&db, u, t).unwrap();
    assert_eq!(got.title, "");
    assert_eq!(got.description, "long text");
    assert_eq!(got.due_date, "not a date");
    assert_eq!(got.status, TaskStatus::Done);
}

#[test]
fn update_replaces_all_fields() {
    let mut db = Db::new();
    let u = create_user_in_db(&mut db, &named("U"));
    let t = create_task_for_user(&mut db, u, &input("a", "b", "c", TaskStatus::Done)).unwrap();
    update_task_in_db(&mut db, u, t, &input("d", "e", "f", TaskStatus::ToDo)).unwrap();
    let got = get_task_for_user(&db, u, t).unwrap();
    assert_eq!(got.id, t);
    assert_eq!(got.title, "d");
    assert_eq!(got.description, "e");
    assert_eq!(got.due_date, "f");
    assert_eq!(got.status, TaskStatus::ToDo);
    assert_eq!(db.user(u).unwrap().name, "U");
}

#[test]
fn delete_twice_fails_with_task_not_found() {
    let mut db = Db::new();
    let u = create_user_in_db(&mut db, &named("D"));
    let t = create_task_for_user(&mut db, u, &input("a", "b", "c", TaskStatus::ToDo)).unwrap();
    assert_eq!(delete_task_from_db(&mut db, u, t), Ok(()));
    assert_eq!(delete_task_from_db(&mut db, u, t), Err(StoreError::TaskNotFound(t)));
    assert_eq!(
        update_task_in_db(&mut db, u, t, &input("a", "b", "c", TaskStatus::ToDo)).unwrap_err(),
        StoreError::TaskNotFound(t)
    );
}

#[test]
fn missing_user_is_reported_first() {
    let mut db = Db::new();
    let data = input("a", "b", "c", TaskStatus::ToDo);
    assert_eq!(get_task_for_user(&db, 7, 9).unwrap_err(), StoreError::UserNotFound(7));
    assert_eq!(update_task_in_db(&mut db, 7, 9, &data).unwrap_err(), StoreError::UserNotFound(7));
    assert_eq!(delete_task_from_db(&mut db, 7, 9), Err(StoreError::UserNotFound(7)));
    assert_eq!(create_task_for_user(&mut db, 7, &data), Err(StoreError::UserNotFound(7)));
    assert_eq!(get_tasks_for_user(&db, 7).unwrap_err(), StoreError::UserNotFound(7));
}

#[test]
fn error_messages_carry_the_uuid_text() {
    let id: u128 = 0xa1a2a3a4b1b2c1c2d1d2d3d4d5d6d7d8;
    assert_eq!(
        StoreError::UserNotFound(id).to_response().error,
        "User with id a1a2a3a4-b1b2-c1c2-d1d2-d3d4d5d6d7d8 not found"
    );
    assert_eq!(
        StoreError::TaskNotFound(1).to_response().error,
        "Task with id 00000000-0000-0000-0000-000000000001 not found"
    );
    assert_eq!(StoreError::TaskNotFound(1).id(), 1);
}

#[test]
fn fresh_key_keeps_a_free_seed() {
    let mut m: HashMap<u128, ()> = HashMap::new();
    assert_eq!(fresh_key(&m, 5), 5);
    m.insert(5, ());
    m.insert(4, ());
    let k = fresh_key(&m, 5);
    assert!(!m.contains_key(&k));
    assert_eq!(k, 5 ^ 2);
}

#[test]
fn fresh_key_on_empty_map_and_extreme_seed() {
    let m: HashMap<u128, ()> = HashMap::new();
    assert_eq!(fresh_key(&m, u128::MAX), u128::MAX);
    let mut full: HashMap<u128, ()> = HashMap::new();
    full.insert(u128::MAX, ());
    assert_eq!(fresh_key(&full, u128::MAX), u128::MAX - 1);
}
