use chat_relay::command::{Command, Reply};
use chat_relay::completion::{completion_in, completion_of};
use chat_relay::error::StoreError;
use chat_relay::lock::{acquire_lock, release_lock};
use chat_relay::message::Message;
use chat_relay::processor::Completion;
use chat_relay::window::{add_conversation, get_conversations};
use chat_relay::wire::{failure_for, flag_reply, items_reply, reply_of};
use redis::{ErrorKind, RedisError, Value};

fn answered(command: &Command, values: Vec<Value>) -> Reply {
    reply_of(command, &Ok(Value::Bulk(values)))
}

#[test]
fn a_conditional_write_answers_with_a_flag() {
    let command = acquire_lock("m1");
    assert_eq!(answered(&command, vec![Value::Okay]), Reply::Flag(true));
    assert_eq!(answered(&command, vec![Value::Nil]), Reply::Flag(false));
    assert_eq!(answered(&command, vec![Value::Int(1)]), Reply::Flag(true));
    assert_eq!(answered(&command, vec![Value::Int(0)]), Reply::Flag(false));
}

#[test]
fn a_flag_that_cannot_be_read_is_a_decoding_failure() {
    let command = acquire_lock("m1");
    assert_eq!(
        answered(&command, vec![Value::Status("maybe".to_string())]),
        Reply::Failed(StoreError::Decode)
    );
    assert_eq!(answered(&command, Vec::new()), Reply::Failed(StoreError::Decode));
    assert_eq!(reply_of(&command, &Ok(Value::Okay)), Reply::Failed(StoreError::Decode));
}

#[test]
fn a_read_answers_with_its_entries() {
    let command = get_conversations("u1", 10);
    let entries = Value::Bulk(vec![
        Value::Data(b"assistant:hello".to_vec()),
        Value::Data(b"user:hi".to_vec()),
    ]);
    assert_eq!(
        answered(&command, vec![entries]),
        Reply::Items(vec!["assistant:hello".to_string(), "user:hi".to_string()])
    );
    assert_eq!(answered(&command, vec![Value::Bulk(Vec::new())]), Reply::Items(Vec::new()));
}

#[test]
fn entries_that_are_no_text_are_a_decoding_failure() {
    let command = get_conversations("u1", 10);
    let entries = Value::Bulk(vec![Value::Data(vec![0xff, 0xfe])]);
    assert_eq!(answered(&command, vec![entries]), Reply::Failed(StoreError::Decode));
}

#[test]
fn the_other_commands_have_nothing_to_report() {
    assert_eq!(answered(&release_lock("m1"), vec![Value::Int(1)]), Reply::Done);
    assert_eq!(answered(&release_lock("m1"), vec![Value::Int(0)]), Reply::Done);
    let turns = vec![Message { role: "user".to_string(), content: "hi".to_string() }];
    let append = add_conversation("u1", &turns, 10);
    assert_eq!(answered(&append, vec![Value::Int(1), Value::Okay]), Reply::Done);
    assert_eq!(reply_of(&append, &Ok(Value::Nil)), Reply::Done);
}

#[test]
fn a_failed_connection_means_the_store_is_unavailable() {
    let timed_out = RedisError::from(std::io::Error::new(std::io::ErrorKind::TimedOut, "late"));
    let refused =
        RedisError::from(std::io::Error::new(std::io::ErrorKind::ConnectionRefused, "closed"));
    for command in [acquire_lock("m1"), release_lock("m1"), get_conversations("u1", 10)] {
        assert_eq!(
            reply_of(&command, &Err(RedisError::from(std::io::Error::new(
                std::io::ErrorKind::BrokenPipe,
                "gone"
            )))),
            Reply::Failed(StoreError::Unavailable)
        );
    }
    assert_eq!(
        reply_of(&acquire_lock("m1"), &Err(timed_out)),
        Reply::Failed(StoreError::Unavailable)
    );
    assert_eq!(
        reply_of(&acquire_lock("m1"), &Err(refused)),
        Reply::Failed(StoreError::Unavailable)
    );
}

#[test]
fn an_error_of_the_store_means_that_it_rejected_the_command() {
    let wrong_type = RedisError::from((ErrorKind::ResponseError, "wrong kind of value"));
    let aborted = RedisError::from((ErrorKind::ExecAbortError, "transaction discarded"));
    assert_eq!(
        reply_of(&get_conversations("u1", 10), &Err(wrong_type)),
        Reply::Failed(StoreError::Rejected)
    );
    let append = add_conversation("u1", &Vec::new(), 10);
    assert_eq!(reply_of(&append, &Err(aborted)), Reply::Failed(StoreError::Rejected));
}

#[test]
fn a_reply_is_read_by_the_kind_of_command() {
    let both = Value::Bulk(vec![Value::Bulk(vec![Value::Data(b"1".to_vec())])]);
    assert_eq!(reply_of(&acquire_lock("m1"), &Ok(both.clone())), Reply::Failed(StoreError::Decode));
    assert_eq!(
        reply_of(&get_conversations("u1", 10), &Ok(both.clone())),
        Reply::Items(vec!["1".to_string()])
    );
    assert_eq!(reply_of(&release_lock("m1"), &Ok(both)), Reply::Done);
    let flag = Value::Bulk(vec![Value::Data(b"1".to_vec())]);
    assert_eq!(reply_of(&acquire_lock("m1"), &Ok(flag)), Reply::Flag(true));
}

#[test]
fn replies_for_what_was_read() {
    assert_eq!(flag_reply(Some(true)), Reply::Flag(true));
    assert_eq!(flag_reply(Some(false)), Reply::Flag(false));
    assert_eq!(flag_reply(None), Reply::Failed(StoreError::Decode));
    assert_eq!(items_reply(Some(vec!["a".to_string()])), Reply::Items(vec!["a".to_string()]));
    assert_eq!(items_reply(None), Reply::Failed(StoreError::Decode));
    assert_eq!(failure_for(true), StoreError::Unavailable);
    assert_eq!(failure_for(false), StoreError::Rejected);
}

fn json(text: &str) -> serde_json::Value {
    serde_json::from_str(text).unwrap()
}

#[test]
fn the_completion_is_the_content_of_the_first_choice() {
    let response = json(
        r#"{"id": "x", "choices": [
            {"index": 0, "message": {"role": "assistant", "content": "hi there"}},
            {"index": 1, "message": {"role": "assistant", "content": "second"}}
        ]}"#,
    );
    assert_eq!(completion_in(&response), Completion::Text("hi there".to_string()));
    let empty_text = json(r#"{"choices": [{"message": {"content": ""}}]}"#);
    assert_eq!(completion_in(&empty_text), Completion::Text(String::new()));
    let other_members = json(
        r#"{"content": "outer", "message": {"content": "middle"},
            "choices": [{"content": "near", "message": {"content": "h\u00e9 \"there\"", "role": "x"}}]}"#,
    );
    assert_eq!(completion_in(&other_members), Completion::Text("h\u{e9} \"there\"".to_string()));
}

#[test]
fn an_answer_without_content_is_an_empty_completion() {
    for text in [
        r#"{}"#,
        r#"null"#,
        r#"[]"#,
        r#"{"error": {"message": "too long"}}"#,
        r#"{"choices": []}"#,
        r#"{"choices": {"message": {"content": "not a list"}}}"#,
        r#"{"choices": {"0": {"message": {"content": "under a key"}}}}"#,
        r#"{"choices": [[{"message": {"content": "one level down"}}]]}"#,
        r#"{"choices": [{"message": [{"content": "in a list"}]}]}"#,
        r#"{"choices": [{"message": {"content": ["in a list"]}}]}"#,
        r#"{"choices": [{"message": {"Content": "other case"}}]}"#,
        r#"{"choices": [{"text": "old style"}]}"#,
        r#"{"choices": [{"message": {"content": null}}]}"#,
        r#"{"choices": [{"message": {"content": 42}}]}"#,
        r#"{"choices": [{"message": "flat"}]}"#,
    ] {
        assert_eq!(completion_in(&json(text)), Completion::Empty);
    }
}

#[test]
fn completions_for_what_was_read() {
    assert_eq!(completion_of(Some("hi".to_string())), Completion::Text("hi".to_string()));
    assert_eq!(completion_of(None), Completion::Empty);
}
