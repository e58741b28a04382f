use chat_relay::command::{Command, Reply};
use chat_relay::error::StoreError;
use chat_relay::lock::{acquire_lock, lock_granted, release_lock};
use chat_relay::memory::MemoryStore;
use chat_relay::message::Message;
use chat_relay::processor::{
    Action, Completion, Event, MessageProcessor, Stage, MAX_PROMPT_BYTES, NO_ANSWER, PRIMER,
};
use chat_relay::window::{add_conversation, conversations_in, get_conversations};

fn said(role: &str, content: &str) -> Message {
    Message { role: role.to_string(), content: content.to_string() }
}

fn processor_for(message_id: &str, content: &str) -> MessageProcessor {
    MessageProcessor::new(message_id, "u1", "<@u1>", true, content, 10)
}

fn window_of(store: &mut MemoryStore, user: &str) -> Vec<Message> {
    conversations_in(&store.execute(&get_conversations(user, 10), 0)).unwrap()
}

/// Runs a processor against a store, answering every completion with
/// `answer`, and hands back the actions it asked for.
fn run(processor: &mut MessageProcessor, store: &mut MemoryStore, answer: Completion) -> Vec<Action> {
    let mut answer = Some(answer);
    let mut actions = Vec::new();
    let mut event = Event::Begin;
    loop {
        let action = processor.handle_message(event);
        event = match &action {
            Action::Store(command) => Event::Store(store.execute(command, 0)),
            Action::Complete(_) => Event::Completion(answer.take().unwrap()),
            Action::Say(_) => Event::Delivered,
            Action::Reply(_) | Action::Finish => {
                actions.push(action);
                return actions;
            }
        };
        actions.push(action);
    }
}

#[test]
fn a_new_processor_is_idle_with_a_clean_prompt() {
    let processor = processor_for("m1", "  <@bot> hello  ");
    assert_eq!(processor.stage(), Stage::Idle);
    assert!(!processor.is_finished());
    assert_eq!(processor.prompt(), "hello");
    assert_eq!(processor.acquire_lock(), acquire_lock("m1"));
    assert_eq!(processor.release_lock(), release_lock("m1"));
}

#[test]
fn first_exchange_of_a_user() {
    let mut store = MemoryStore::new();
    let mut processor = processor_for("m1", "<@bot> hello");
    let actions = run(&mut processor, &mut store, Completion::Text("hi there".to_string()));
    let turns = vec![said("user", PRIMER), said("user", "hello"), said("assistant", "hi there")];
    assert_eq!(
        actions,
        vec![
            Action::Store(acquire_lock("m1")),
            Action::Store(get_conversations("u1", 10)),
            Action::Complete(vec![said("user", PRIMER), said("user", "hello")]),
            Action::Store(add_conversation("u1", &turns, 10)),
            Action::Store(release_lock("m1")),
            Action::Reply("hi there".to_string()),
        ]
    );
    assert!(processor.is_finished());
    assert_eq!(window_of(&mut store, "u1"), turns);
    assert!(lock_granted(&store.execute(&acquire_lock("m1"), 0)));
}

#[test]
fn later_exchange_carries_the_window() {
    let mut store = MemoryStore::new();
    let earlier = vec![said("user", "hello"), said("assistant", "hi there")];
    store.execute(&add_conversation("u1", &earlier, 10), 0);
    let mut processor = processor_for("m2", "and now?");
    let actions = run(&mut processor, &mut store, Completion::Text("now this".to_string()));
    assert_eq!(
        actions[2],
        Action::Complete(vec![
            said("user", "hello"),
            said("assistant", "hi there"),
            said("user", "and now?"),
        ])
    );
    assert_eq!(
        actions[3],
        Action::Store(add_conversation(
            "u1",
            &vec![said("user", "and now?"), said("assistant", "now this")],
            10
        ))
    );
    assert_eq!(actions[5], Action::Reply("now this".to_string()));
    assert_eq!(
        window_of(&mut store, "u1"),
        vec![
            said("user", "hello"),
            said("assistant", "hi there"),
            said("user", "and now?"),
            said("assistant", "now this"),
        ]
    );
}

#[test]
fn a_message_without_mention_is_dropped() {
    let mut processor = MessageProcessor::new("m1", "u1", "<@u1>", false, "hello", 10);
    assert_eq!(processor.handle_message(Event::Begin), Action::Finish);
    assert_eq!(processor.stage(), Stage::Finished);
}

#[test]
fn a_duplicate_is_dropped_in_silence() {
    let mut store = MemoryStore::new();
    assert!(lock_granted(&store.execute(&acquire_lock("m1"), 0)));
    let mut processor = processor_for("m1", "hello");
    let actions = run(&mut processor, &mut store, Completion::Failed);
    assert_eq!(actions, vec![Action::Store(acquire_lock("m1")), Action::Finish]);
    assert!(!lock_granted(&store.execute(&acquire_lock("m1"), 0)));
    assert_eq!(window_of(&mut store, "u1"), Vec::new());
}

#[test]
fn an_unreachable_store_counts_as_lock_not_obtained() {
    let mut processor = processor_for("m1", "hello");
    assert_eq!(processor.handle_message(Event::Begin), Action::Store(acquire_lock("m1")));
    assert_eq!(processor.stage(), Stage::Locking);
    assert_eq!(
        processor.handle_message(Event::Store(Reply::Failed(StoreError::Unavailable))),
        Action::Finish
    );
    assert!(processor.is_finished());
}

#[test]
fn a_prompt_that_is_too_long_is_refused_and_the_lock_released() {
    let mut store = MemoryStore::new();
    let long = "x".repeat(MAX_PROMPT_BYTES + 1);
    let mut processor = processor_for("m1", &long);
    let actions = run(&mut processor, &mut store, Completion::Failed);
    assert_eq!(
        actions,
        vec![
            Action::Store(acquire_lock("m1")),
            Action::Store(get_conversations("u1", 10)),
            Action::Say(
                "Error: <@u1>, your prompt length exceeds the maximum of 2048 tokens".to_string()
            ),
            Action::Store(release_lock("m1")),
            Action::Finish,
        ]
    );
    assert!(lock_granted(&store.execute(&acquire_lock("m1"), 0)));
    assert_eq!(window_of(&mut store, "u1"), Vec::new());
}

#[test]
fn the_longest_prompt_still_passes() {
    assert_eq!(MAX_PROMPT_BYTES, 2048);
    let mut store = MemoryStore::new();
    let longest = "x".repeat(2048);
    let mut processor = processor_for("m1", &longest);
    let actions = run(&mut processor, &mut store, Completion::Text("ok".to_string()));
    assert_eq!(actions[5], Action::Reply("ok".to_string()));
    let wide = "\u{e9}".repeat(1025);
    let mut processor = processor_for("m2", &wide);
    let actions = run(&mut processor, &mut store, Completion::Failed);
    assert_eq!(actions.len(), 5);
    assert_eq!(actions[4], Action::Finish);
}

#[test]
fn a_completion_without_text_gets_the_stock_answer() {
    let mut store = MemoryStore::new();
    let mut processor = processor_for("m1", "hello");
    let actions = run(&mut processor, &mut store, Completion::Empty);
    assert_eq!(actions[5], Action::Reply(NO_ANSWER.to_string()));
    assert_eq!(
        window_of(&mut store, "u1"),
        vec![said("user", PRIMER), said("user", "hello"), said("assistant", NO_ANSWER)]
    );
}

#[test]
fn a_failed_completion_releases_without_answer() {
    let mut store = MemoryStore::new();
    let mut processor = processor_for("m1", "hello");
    let actions = run(&mut processor, &mut store, Completion::Failed);
    assert_eq!(
        actions,
        vec![
            Action::Store(acquire_lock("m1")),
            Action::Store(get_conversations("u1", 10)),
            Action::Complete(vec![said("user", PRIMER), said("user", "hello")]),
            Action::Store(release_lock("m1")),
            Action::Finish,
        ]
    );
    assert!(lock_granted(&store.execute(&acquire_lock("m1"), 0)));
}

#[test]
fn a_failed_read_falls_back_to_an_empty_window() {
    let mut processor = processor_for("m1", "hello");
    processor.handle_message(Event::Begin);
    processor.handle_message(Event::Store(Reply::Flag(true)));
    assert_eq!(processor.stage(), Stage::Reading);
    assert_eq!(
        processor.handle_message(Event::Store(Reply::Failed(StoreError::Unavailable))),
        Action::Complete(vec![said("user", PRIMER), said("user", "hello")])
    );
    assert_eq!(processor.stage(), Stage::Completing);
}

#[test]
fn a_failed_append_holds_the_answer_back() {
    let mut processor = processor_for("m1", "hello");
    processor.handle_message(Event::Begin);
    processor.handle_message(Event::Store(Reply::Flag(true)));
    processor.handle_message(Event::Store(Reply::Items(Vec::new())));
    let action =
        processor.handle_message(Event::Completion(Completion::Text("hi there".to_string())));
    assert!(matches!(action, Action::Store(Command::PushTrim { .. })));
    assert_eq!(processor.stage(), Stage::Appending);
    assert_eq!(
        processor.handle_message(Event::Store(Reply::Failed(StoreError::Unavailable))),
        Action::Store(release_lock("m1"))
    );
    assert_eq!(processor.stage(), Stage::Releasing);
    assert_eq!(processor.handle_message(Event::Store(Reply::Done)), Action::Finish);
    assert!(processor.is_finished());
}

#[test]
fn a_failed_release_does_not_hold_the_answer_back() {
    let mut processor = processor_for("m1", "hello");
    processor.handle_message(Event::Begin);
    processor.handle_message(Event::Store(Reply::Flag(true)));
    processor.handle_message(Event::Store(Reply::Items(Vec::new())));
    processor.handle_message(Event::Completion(Completion::Text("hi there".to_string())));
    assert_eq!(
        processor.handle_message(Event::Store(Reply::Done)),
        Action::Store(release_lock("m1"))
    );
    assert_eq!(
        processor.handle_message(Event::Store(Reply::Failed(StoreError::Unavailable))),
        Action::Reply("hi there".to_string())
    );
    assert!(processor.is_finished());
}

#[test]
fn an_event_out_of_turn_ends_with_a_release_where_the_lock_is_held() {
    let mut processor = processor_for("m1", "hello");
    processor.handle_message(Event::Begin);
    processor.handle_message(Event::Store(Reply::Flag(true)));
    assert_eq!(processor.handle_message(Event::Delivered), Action::Store(release_lock("m1")));
    assert_eq!(processor.handle_message(Event::Delivered), Action::Finish);

    let mut processor = processor_for("m2", "hello");
    assert_eq!(processor.handle_message(Event::Delivered), Action::Finish);
    assert!(processor.is_finished());

    let mut processor = processor_for("m3", "hello");
    processor.handle_message(Event::Begin);
    assert_eq!(processor.handle_message(Event::Begin), Action::Finish);
}

#[test]
fn a_finished_processor_stays_finished() {
    let mut processor = MessageProcessor::new("m1", "u1", "<@u1>", false, "hello", 10);
    processor.handle_message(Event::Begin);
    assert_eq!(processor.handle_message(Event::Begin), Action::Finish);
    assert_eq!(processor.handle_message(Event::Store(Reply::Flag(true))), Action::Finish);
    assert_eq!(processor.stage(), Stage::Finished);
}

#[test]
fn two_processors_for_one_message_answer_once() {
    let mut store = MemoryStore::new();
    let mut first = processor_for("m1", "hello");
    let mut second = processor_for("m1", "hello");
    let a1 = first.handle_message(Event::Begin);
    let a2 = second.handle_message(Event::Begin);
    let r1 = match a1 {
        Action::Store(command) => store.execute(&command, 0),
        _ => unreachable!(),
    };
    let r2 = match a2 {
        Action::Store(command) => store.execute(&command, 0),
        _ => unreachable!(),
    };
    assert!(matches!(first.handle_message(Event::Store(r1)), Action::Store(Command::Range { .. })));
    assert_eq!(second.handle_message(Event::Store(r2)), Action::Finish);
}
