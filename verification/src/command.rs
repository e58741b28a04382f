//! The commands that the lock and the window send to the store, and the
//! replies that come back.

use vstd::prelude::*;
use crate::error::StoreError;

verus! {

/// The number of seconds after which an operation on the store is given up.
pub const STORE_TIMEOUT_SECS: u64 = 1;

/// One request to the key-value store. The store carries out each command as
/// a single atomic step.
#[derive(Debug, PartialEq, Eq)]
pub enum Command {
    /// Create `key` with `value` and a time to live, only if `key` is absent.
    SetIfAbsent { key: String, value: String, ttl_secs: u32 },
    /// Delete `key`, whatever it holds.
    Delete { key: String },
    /// Push `values` one after another onto the head of the list at `key`,
    /// then cut the list down to its first `keep` entries.
    PushTrim { key: String, values: Vec<String>, keep: u32 },
    /// Read the first `count` entries of the list at `key`.
    Range { key: String, count: u32 },
}

/// The mathematical value of a [`Command`].
pub enum CommandView {
    SetIfAbsent { key: Seq<char>, value: Seq<char>, ttl_secs: nat },
    Delete { key: Seq<char> },
    PushTrim { key: Seq<char>, values: Seq<Seq<char>>, keep: nat },
    Range { key: Seq<char>, count: nat },
}

impl View for Command {
    type V = CommandView;

    open spec fn view(&self) -> CommandView {
        match *self {
            Command::SetIfAbsent { key, value, ttl_secs } => CommandView::SetIfAbsent {
                key: key@,
                value: value@,
                ttl_secs: ttl_secs as nat,
            },
            Command::Delete { key } => CommandView::Delete { key: key@ },
            Command::PushTrim { key, values, keep } => CommandView::PushTrim {
                key: key@,
                values: values.deep_view(),
                keep: keep as nat,
            },
            Command::Range { key, count } => CommandView::Range { key: key@, count: count as nat },
        }
    }
}

impl CommandView {
    /// The key that the command reads or changes.
    pub open spec fn key(self) -> Seq<char> {
        match self {
            CommandView::SetIfAbsent { key, .. } => key,
            CommandView::Delete { key } => key,
            CommandView::PushTrim { key, .. } => key,
            CommandView::Range { key, .. } => key,
        }
    }
}

/// What came back for one command.
#[derive(Debug, PartialEq, Eq)]
pub enum Reply {
    /// Whether a conditional write took place.
    Flag(bool),
    /// The command was carried out and has nothing to report.
    Done,
    /// The entries that were read, head first.
    Items(Vec<String>),
    /// The command failed.
    Failed(StoreError),
}

/// The mathematical value of a [`Reply`].
pub enum ReplyView {
    Flag(bool),
    Done,
    Items(Seq<Seq<char>>),
    Failed(StoreError),
}

impl View for Reply {
    type V = ReplyView;

    open spec fn view(&self) -> ReplyView {
        match *self {
            Reply::Flag(set) => ReplyView::Flag(set),
            Reply::Done => ReplyView::Done,
            Reply::Items(items) => ReplyView::Items(items.deep_view()),
            Reply::Failed(error) => ReplyView::Failed(error),
        }
    }
}

/// Reads the reply to a command whose success carries no value: any reply
/// but a failure is a success, and a failure is handed on as it is.
pub fn acknowledged(reply: &Reply) -> (outcome: Result<(), StoreError>)
    ensures
        outcome == match reply@ {
            ReplyView::Failed(error) => Err::<(), StoreError>(error),
            _ => Ok::<(), StoreError>(()),
        },
{
    match reply {
        Reply::Failed(error) => Err(*error),
        _ => Ok(()),
    }
}

} // verus!
