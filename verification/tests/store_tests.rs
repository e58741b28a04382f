use chat_relay::command::{acknowledged, Command, Reply};
use chat_relay::error::StoreError;
use chat_relay::lock::{acquire_lock, lock_granted, release_lock};
use chat_relay::memory::MemoryStore;
use chat_relay::message::Message;
use chat_relay::window::{
    add_conversation, clear_conversations, conversations_in, get_conversations,
};

fn turn(role: &str, content: &str) -> Message {
    Message { role: role.to_string(), content: content.to_string() }
}

fn append(store: &mut MemoryStore, user: &str, turns: Vec<Message>, limit: u32) {
    let reply = store.execute(&add_conversation(user, &turns, limit), 0);
    assert_eq!(acknowledged(&reply), Ok(()));
}

fn read(store: &mut MemoryStore, user: &str, limit: u32) -> Vec<Message> {
    let reply = store.execute(&get_conversations(user, limit), 0);
    conversations_in(&reply).unwrap()
}

#[test]
fn of_many_acquires_exactly_one_is_granted() {
    let mut store = MemoryStore::new();
    let mut granted = 0;
    let mut denied = 0;
    for attempt in 0..8u64 {
        let reply = store.execute(&acquire_lock("m1"), 100 + attempt);
        if lock_granted(&reply) {
            granted += 1;
            assert_eq!(attempt, 0);
        } else {
            denied += 1;
            assert_eq!(reply, Reply::Flag(false));
        }
    }
    assert_eq!(granted, 1);
    assert_eq!(denied, 7);
}

#[test]
fn locks_of_different_messages_do_not_meet() {
    let mut store = MemoryStore::new();
    assert!(lock_granted(&store.execute(&acquire_lock("m1"), 0)));
    assert!(lock_granted(&store.execute(&acquire_lock("m2"), 0)));
    assert!(!lock_granted(&store.execute(&acquire_lock("m1"), 1)));
    assert!(!lock_granted(&store.execute(&acquire_lock("m2"), 1)));
}

#[test]
fn an_unreleased_lock_expires() {
    let mut store = MemoryStore::new();
    assert!(lock_granted(&store.execute(&acquire_lock("m1"), 1000)));
    assert!(!lock_granted(&store.execute(&acquire_lock("m1"), 1009)));
    assert!(lock_granted(&store.execute(&acquire_lock("m1"), 1010)));
    assert!(!lock_granted(&store.execute(&acquire_lock("m1"), 1019)));
    assert!(lock_granted(&store.execute(&acquire_lock("m1"), 5000)));
}

#[test]
fn a_lock_near_the_end_of_time_does_not_wrap() {
    let mut store = MemoryStore::new();
    assert!(lock_granted(&store.execute(&acquire_lock("m1"), u64::MAX - 3)));
    assert!(!lock_granted(&store.execute(&acquire_lock("m1"), u64::MAX)));
}

#[test]
fn release_never_fails_and_frees_the_lock() {
    let mut store = MemoryStore::new();
    assert_eq!(store.execute(&release_lock("never-taken"), 0), Reply::Done);
    assert!(lock_granted(&store.execute(&acquire_lock("m1"), 0)));
    assert_eq!(acknowledged(&store.execute(&release_lock("m1"), 1)), Ok(()));
    assert_eq!(acknowledged(&store.execute(&release_lock("m1"), 1)), Ok(()));
    assert!(lock_granted(&store.execute(&acquire_lock("m1"), 2)));
}

#[test]
fn release_after_expiry_is_no_error() {
    let mut store = MemoryStore::new();
    assert!(lock_granted(&store.execute(&acquire_lock("m1"), 0)));
    assert_eq!(store.execute(&release_lock("m1"), 50), Reply::Done);
}

#[test]
fn a_zero_time_to_live_is_refused() {
    let mut store = MemoryStore::new();
    let command =
        Command::SetIfAbsent { key: "k".to_string(), value: "v".to_string(), ttl_secs: 0 };
    assert_eq!(store.execute(&command, 0), Reply::Failed(StoreError::Rejected));
    let command =
        Command::SetIfAbsent { key: "k".to_string(), value: "v".to_string(), ttl_secs: 1 };
    assert_eq!(store.execute(&command, 0), Reply::Flag(true));
}

#[test]
fn window_of_three_keeps_the_last_three() {
    let mut store = MemoryStore::new();
    append(&mut store, "u", vec![turn("user", "hi")], 3);
    append(&mut store, "u", vec![turn("assistant", "hello")], 3);
    append(&mut store, "u", vec![turn("user", "how are you")], 3);
    append(&mut store, "u", vec![turn("assistant", "fine")], 3);
    assert_eq!(
        read(&mut store, "u", 3),
        vec![turn("assistant", "hello"), turn("user", "how are you"), turn("assistant", "fine")]
    );
}

#[test]
fn more_appends_than_the_limit_leave_the_most_recent() {
    let mut store = MemoryStore::new();
    for n in 0..25 {
        append(&mut store, "u", vec![turn("user", &format!("turn {}", n))], 10);
    }
    let expected: Vec<Message> =
        (15..25).map(|n| turn("user", &format!("turn {}", n))).collect();
    assert_eq!(read(&mut store, "u", 10), expected);
}

#[test]
fn fewer_appends_than_the_limit_keep_everything() {
    let mut store = MemoryStore::new();
    append(&mut store, "u", vec![turn("user", "one")], 10);
    append(&mut store, "u", vec![turn("assistant", "two")], 10);
    assert_eq!(read(&mut store, "u", 10), vec![turn("user", "one"), turn("assistant", "two")]);
}

#[test]
fn a_batch_goes_in_whole_and_in_order() {
    let mut store = MemoryStore::new();
    append(&mut store, "u", vec![turn("user", "old 1"), turn("assistant", "old 2")], 4);
    append(
        &mut store,
        "u",
        vec![turn("user", "a"), turn("assistant", "b"), turn("user", "c")],
        4,
    );
    assert_eq!(
        read(&mut store, "u", 4),
        vec![turn("assistant", "old 2"), turn("user", "a"), turn("assistant", "b"), turn("user", "c")]
    );
}

#[test]
fn a_batch_longer_than_the_limit_keeps_its_end() {
    let mut store = MemoryStore::new();
    append(
        &mut store,
        "u",
        vec![turn("user", "a"), turn("assistant", "b"), turn("user", "c")],
        2,
    );
    assert_eq!(read(&mut store, "u", 2), vec![turn("assistant", "b"), turn("user", "c")]);
}

#[test]
fn a_limit_of_zero_keeps_nothing() {
    let mut store = MemoryStore::new();
    append(&mut store, "u", vec![turn("user", "a")], 0);
    assert_eq!(read(&mut store, "u", 10), Vec::new());
}

#[test]
fn an_empty_batch_is_refused_and_changes_nothing() {
    let mut store = MemoryStore::new();
    append(&mut store, "u", vec![turn("user", "a")], 3);
    let reply = store.execute(&add_conversation("u", &Vec::new(), 3), 0);
    assert_eq!(acknowledged(&reply), Err(StoreError::Rejected));
    assert_eq!(read(&mut store, "u", 3), vec![turn("user", "a")]);
}

#[test]
fn a_user_without_window_reads_nothing() {
    let mut store = MemoryStore::new();
    let reply = store.execute(&get_conversations("nobody", 10), 0);
    assert_eq!(reply, Reply::Items(Vec::new()));
    assert_eq!(conversations_in(&reply), Ok(Vec::new()));
}

#[test]
fn windows_of_different_users_do_not_meet() {
    let mut store = MemoryStore::new();
    append(&mut store, "u1", vec![turn("user", "for one")], 3);
    append(&mut store, "u2", vec![turn("user", "for two")], 3);
    assert_eq!(read(&mut store, "u1", 3), vec![turn("user", "for one")]);
    assert_eq!(read(&mut store, "u2", 3), vec![turn("user", "for two")]);
}

#[test]
fn clear_empties_the_window() {
    let mut store = MemoryStore::new();
    append(&mut store, "u", vec![turn("user", "a"), turn("assistant", "b")], 3);
    assert_eq!(acknowledged(&store.execute(&clear_conversations("u"), 0)), Ok(()));
    assert_eq!(read(&mut store, "u", 3), Vec::new());
    assert_eq!(acknowledged(&store.execute(&clear_conversations("u"), 0)), Ok(()));
    assert_eq!(acknowledged(&store.execute(&clear_conversations("nobody"), 0)), Ok(()));
}

#[test]
fn append_after_clear_starts_afresh() {
    let mut cleared = MemoryStore::new();
    append(&mut cleared, "u", vec![turn("user", "a"), turn("assistant", "b")], 3);
    cleared.execute(&clear_conversations("u"), 0);
    append(&mut cleared, "u", vec![turn("user", "c")], 3);
    let mut fresh = MemoryStore::new();
    append(&mut fresh, "u", vec![turn("user", "c")], 3);
    assert_eq!(read(&mut cleared, "u", 3), vec![turn("user", "c")]);
    assert_eq!(read(&mut cleared, "u", 3), read(&mut fresh, "u", 3));
}

#[test]
fn the_store_holds_the_newest_turn_first() {
    let mut store = MemoryStore::new();
    append(&mut store, "u", vec![turn("user", "a"), turn("assistant", "b")], 5);
    append(&mut store, "u", vec![turn("user", "c")], 5);
    assert_eq!(
        store.execute(&get_conversations("u", 5), 0),
        Reply::Items(vec!["user:c".to_string(), "assistant:b".to_string(), "user:a".to_string()])
    );
    assert_eq!(
        store.execute(&get_conversations("u", 2), 0),
        Reply::Items(vec!["user:c".to_string(), "assistant:b".to_string()])
    );
    assert_eq!(store.execute(&get_conversations("u", 0), 0), Reply::Items(Vec::new()));
}

#[test]
fn a_malformed_entry_is_skipped() {
    let reply = Reply::Items(vec![
        "assistant:newest".to_string(),
        "garbage without delimiter".to_string(),
        "".to_string(),
        "user:oldest".to_string(),
    ]);
    assert_eq!(
        conversations_in(&reply),
        Ok(vec![turn("user", "oldest"), turn("assistant", "newest")])
    );
}

#[test]
fn a_failed_read_hands_the_failure_on() {
    assert_eq!(
        conversations_in(&Reply::Failed(StoreError::Unavailable)),
        Err(StoreError::Unavailable)
    );
    assert_eq!(conversations_in(&Reply::Failed(StoreError::Rejected)), Err(StoreError::Rejected));
    assert_eq!(conversations_in(&Reply::Done), Err(StoreError::Decode));
    assert_eq!(conversations_in(&Reply::Flag(true)), Err(StoreError::Decode));
}

#[test]
fn lists_and_markers_do_not_mix() {
    let mut store = MemoryStore::new();
    let mark = Command::SetIfAbsent { key: "k".to_string(), value: "v".to_string(), ttl_secs: 5 };
    let push = Command::PushTrim { key: "k".to_string(), values: vec!["x".to_string()], keep: 3 };
    let range = Command::Range { key: "k".to_string(), count: 3 };
    assert_eq!(store.execute(&mark, 0), Reply::Flag(true));
    assert_eq!(store.execute(&push, 1), Reply::Failed(StoreError::Rejected));
    assert_eq!(store.execute(&range, 1), Reply::Failed(StoreError::Rejected));
    assert_eq!(store.execute(&range, 5), Reply::Items(Vec::new()));
    assert_eq!(store.execute(&push, 5), Reply::Done);
    assert_eq!(store.execute(&range, 5), Reply::Items(vec!["x".to_string()]));
    assert_eq!(store.execute(&mark, 6), Reply::Flag(false));
    assert_eq!(store.execute(&Command::Delete { key: "k".to_string() }, 6), Reply::Done);
    assert_eq!(store.execute(&mark, 6), Reply::Flag(true));
}
