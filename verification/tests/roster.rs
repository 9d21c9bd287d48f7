use tagger::roster::{MemoryRoster, StoreOp};
use tagger::User;

fn user(user_id: i64, first_name: &str) -> User {
    User { user_id, first_name: first_name.to_string() }
}

#[test]
fn new_roster_lists_nobody() {
    let roster = MemoryRoster::new();
    assert_eq!(roster.list(1), Vec::<User>::new());
}

#[test]
fn upsert_adds_a_record() {
    let mut roster = MemoryRoster::new();
    roster.upsert(1, 10, "Ann");
    assert_eq!(roster.list(1), vec![user(10, "Ann")]);
}

#[test]
fn upsert_overwrites_the_name_only() {
    let mut roster = MemoryRoster::new();
    roster.upsert(1, 10, "Ann");
    roster.upsert(1, 11, "Bob");
    roster.upsert(1, 10, "Anna");
    assert_eq!(roster.list(1), vec![user(10, "Anna"), user(11, "Bob")]);
}

#[test]
fn upsert_is_idempotent() {
    let mut roster = MemoryRoster::new();
    roster.upsert(1, 10, "Ann");
    roster.upsert(1, 10, "Ann");
    assert_eq!(roster.list(1), vec![user(10, "Ann")]);
}

#[test]
fn delete_removes_the_record() {
    let mut roster = MemoryRoster::new();
    roster.upsert(1, 10, "Ann");
    roster.upsert(1, 11, "Bob");
    roster.delete(1, 10);
    assert_eq!(roster.list(1), vec![user(11, "Bob")]);
}

#[test]
fn deleting_an_absent_record_changes_nothing() {
    let mut roster = MemoryRoster::new();
    roster.upsert(1, 10, "Ann");
    roster.delete(1, 99);
    roster.delete(2, 10);
    assert_eq!(roster.list(1), vec![user(10, "Ann")]);
}

#[test]
fn rosters_of_different_chats_are_apart() {
    let mut roster = MemoryRoster::new();
    roster.upsert(1, 10, "Ann");
    roster.upsert(2, 10, "Ann elsewhere");
    roster.upsert(2, 12, "Cid");
    assert_eq!(roster.list(1), vec![user(10, "Ann")]);
    assert_eq!(roster.list(2), vec![user(10, "Ann elsewhere"), user(12, "Cid")]);
    assert_eq!(roster.list(3), Vec::<User>::new());
}

#[test]
fn apply_makes_the_change_described() {
    let mut roster = MemoryRoster::new();
    roster.apply(&StoreOp::Upsert { chat_id: 1, user_id: 10, first_name: "Ann".to_string() });
    roster.apply(&StoreOp::Upsert { chat_id: 1, user_id: 11, first_name: "Bob".to_string() });
    roster.apply(&StoreOp::Delete { chat_id: 1, user_id: 10 });
    assert_eq!(roster.list(1), vec![user(11, "Bob")]);
}

#[test]
fn the_last_writer_wins() {
    let mut roster = MemoryRoster::new();
    roster.apply(&StoreOp::Upsert { chat_id: 1, user_id: 10, first_name: "Ann".to_string() });
    roster.apply(&StoreOp::Delete { chat_id: 1, user_id: 10 });
    roster.apply(&StoreOp::Upsert { chat_id: 1, user_id: 10, first_name: "Anna".to_string() });
    assert_eq!(roster.list(1), vec![user(10, "Anna")]);
    roster.apply(&StoreOp::Delete { chat_id: 1, user_id: 10 });
    assert_eq!(roster.list(1), Vec::<User>::new());
}

#[test]
fn store_op_clone_is_equal() {
    let op = StoreOp::Upsert { chat_id: -5, user_id: 7, first_name: "Eve".to_string() };
    assert_eq!(op.clone(), op);
    let user = user(7, "Eve");
    assert_eq!(user.clone(), user);
}
