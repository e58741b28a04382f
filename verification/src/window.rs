//! The conversation window: per user, the most recent turns, newest first in
//! the store and never more than a fixed number of them.
//!
//! Appending pushes the new turns onto the head of the user's list and trims
//! the list in the same transaction. Reading takes the list and turns it
//! round, so that callers get the turns oldest first. Clearing deletes the
//! list.

use vstd::prelude::*;
use vstd::string::*;
use crate::command::{Command, CommandView, Reply, ReplyView};
use crate::error::StoreError;
use crate::message::{decode, encode, Message, Turn, DELIMITER};
use crate::store::StoreState;

verus! {

/// The number of turns that a window keeps unless the caller says otherwise.
pub const WINDOW_LIMIT: u32 = 10;

/// The key of the window of a user.
pub open spec fn window_key_of(user_id: Seq<char>) -> Seq<char> {
    "Conversations:"@ + user_id
}

/// The stored forms of `turns`, in the same order.
pub open spec fn encode_all(turns: Seq<Turn>) -> Seq<Seq<char>> {
    turns.map_values(|turn: Turn| encode(turn))
}

/// The turns that a stored list stands for, oldest first. The list is
/// newest first; an entry that does not decode is left out.
pub open spec fn turns_of(stored: Seq<Seq<char>>) -> Seq<Turn>
    decreases stored.len(),
{
    if stored.len() == 0 {
        Seq::empty()
    } else {
        let older = turns_of(stored.drop_first());
        match decode(stored[0]) {
            Some(turn) => older.push(turn),
            None => older,
        }
    }
}

/// The last `limit` of `turns`, or all of them where there are fewer.
pub open spec fn latest(turns: Seq<Turn>, limit: nat) -> Seq<Turn> {
    if limit < turns.len() {
        turns.subrange(turns.len() - limit, turns.len() as int)
    } else {
        turns
    }
}

/// Whether `turns` ends with `tail`.
pub open spec fn ends_with(turns: Seq<Turn>, tail: Seq<Turn>) -> bool {
    tail.len() <= turns.len() && turns.skip(turns.len() - tail.len()) == tail
}

/// The command that appends `turns`, in their order, to the window of a
/// user and trims the window to `limit` turns.
pub open spec fn append_command(user_id: Seq<char>, turns: Seq<Turn>, limit: nat) -> CommandView {
    CommandView::PushTrim { key: window_key_of(user_id), values: encode_all(turns), keep: limit }
}

/// The command that reads up to `limit` turns of the window of a user.
pub open spec fn read_command(user_id: Seq<char>, limit: nat) -> CommandView {
    CommandView::Range { key: window_key_of(user_id), count: limit }
}

/// The command that deletes the window of a user.
pub open spec fn clear_command(user_id: Seq<char>) -> CommandView {
    CommandView::Delete { key: window_key_of(user_id) }
}

/// The turns that a reply to a read carries, oldest first; the failure that
/// it reports; and for a reply of another form, a decoding failure.
pub open spec fn turns_in(reply: ReplyView) -> Result<Seq<Turn>, StoreError> {
    match reply {
        ReplyView::Items(items) => Ok(turns_of(items)),
        ReplyView::Failed(error) => Err(error),
        _ => Err(StoreError::Decode),
    }
}

/// The key of the window of a user.
pub fn conversation_key(user_id: &str) -> (key: String)
    ensures
        key@ == window_key_of(user_id@),
{
    let mut key = String::from_str("Conversations:");
    key.append(user_id);
    key
}

/// The command that appends `messages` to the window of `user_id`: one
/// transaction that pushes their stored forms, in their order, onto the head
/// of the list and trims the list to its first `limit` entries.
pub fn add_conversation(user_id: &str, messages: &Vec<Message>, limit: u32) -> (command: Command)
    ensures
        command@ == append_command(user_id@, messages.deep_view(), limit as nat),
{
    let ghost turns = messages.deep_view();
    let mut values: Vec<String> = Vec::new();
    let mut done: usize = 0;
    while done < messages.len()
        invariant
            done <= messages.len(),
            turns == messages.deep_view(),
            values.deep_view() == encode_all(turns.take(done as int)),
        decreases messages.len() - done,
    {
        let ghost before = values.deep_view();
        values.push(messages[done].to_redis_string());
        proof {
            assert(values.deep_view() =~= before.push(encode(messages[done as int]@)));
            assert(turns.take(done + 1) =~= turns.take(done as int).push(turns[done as int]));
            assert(encode_all(turns.take(done + 1)) =~= encode_all(turns.take(done as int)).push(
                encode(turns[done as int]),
            ));
        }
        done += 1;
    }
    assert(turns.take(done as int) =~= turns);
    Command::PushTrim { key: conversation_key(user_id), values, keep: limit }
}

/// The command that reads the window of `user_id`: its first `limit`
/// entries, which are its most recent turns.
pub fn get_conversations(user_id: &str, limit: u32) -> (command: Command)
    ensures
        command@ == read_command(user_id@, limit as nat),
{
    Command::Range { key: conversation_key(user_id), count: limit }
}

/// Reads the reply to [`get_conversations`]: the turns oldest first, and
/// no turn for a list without entries. An entry that does not decode is
/// skipped and the others are still returned. A failure is handed on, and a
/// reply that is neither a list nor a failure is a decoding failure.
pub fn conversations_in(reply: &Reply) -> (outcome: Result<Vec<Message>, StoreError>)
    ensures
        match turns_in(reply@) {
            Ok(turns) => outcome is Ok && outcome.unwrap().deep_view() == turns,
            Err(error) => outcome == Err::<Vec<Message>, StoreError>(error),
        },
{
    match reply {
        Reply::Items(items) => {
            let ghost stored = items.deep_view();
            let mut messages: Vec<Message> = Vec::new();
            let mut left: usize = items.len();
            while left > 0
                invariant
                    left <= items.len(),
                    stored == items.deep_view(),
                    messages.deep_view() == turns_of(stored.skip(left as int)),
                decreases left,
            {
                left -= 1;
                let ghost before = messages.deep_view();
                proof {
                    assert(stored.skip(left as int).drop_first() =~= stored.skip(left + 1));
                    assert(stored.skip(left as int)[0] == items[left as int]@);
                }
                match Message::from_redis_string(items[left].as_str()) {
                    Ok(message) => {
                        messages.push(message);
                        assert(messages.deep_view() =~= before.push(message@));
                    },
                    Err(_) => {},
                }
            }
            assert(stored.skip(0) =~= stored);
            Ok(messages)
        },
        Reply::Failed(error) => Err(*error),
        _ => Err(StoreError::Decode),
    }
}

/// The command that deletes the window of `user_id`.
pub fn clear_conversations(user_id: &str) -> (command: Command)
    ensures
        command@ == clear_command(user_id@),
{
    Command::Delete { key: conversation_key(user_id) }
}

/// Every entry of a stored list decodes.
pub open spec fn decodable(stored: Seq<Seq<char>>) -> bool {
    forall|i: int| 0 <= i < stored.len() ==> decode(#[trigger] stored[i]) is Some
}

/// No role among `turns` holds the delimiter.
pub open spec fn plain_roles(turns: Seq<Turn>) -> bool {
    forall|i: int| 0 <= i < turns.len() ==> !(#[trigger] turns[i]).role.contains(DELIMITER)
}

/// The window of a user as the store holds it, oldest turn first.
pub open spec fn window(store: StoreState, user_id: Seq<char>) -> Seq<Turn> {
    turns_of(store.list_at(window_key_of(user_id)))
}

/// The invariant of a window: the user's key holds no marker, and its list
/// has at most `limit` entries, each of which decodes.
pub open spec fn bounded(store: StoreState, user_id: Seq<char>, limit: nat) -> bool {
    let key = window_key_of(user_id);
    &&& !(store.entries.contains_key(key) && store.entries[key] is Marker)
    &&& store.list_at(key).len() <= limit
    &&& decodable(store.list_at(key))
}

/// The window invariant for every user at once.
pub open spec fn orderly(store: StoreState, limit: nat) -> bool {
    forall|user_id: Seq<char>| bounded(store, user_id, limit)
}

/// The store after appending `turns` one by one, each as a batch of its
/// own, at the instants `times`.
pub open spec fn after_appends(
    store: StoreState,
    times: Seq<nat>,
    user_id: Seq<char>,
    turns: Seq<Turn>,
    limit: nat,
) -> StoreState
    decreases turns.len(),
{
    if turns.len() == 0 || times.len() == 0 {
        store
    } else {
        after_appends(store, times.drop_last(), user_id, turns.drop_last(), limit).apply(
            times.last(),
            append_command(user_id, seq![turns.last()], limit),
        ).0
    }
}

} // verus!
