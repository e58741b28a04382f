//! What the key-value store does with a command.
//!
//! The store is one keyspace. A key holds a marker, which is a value with an
//! instant at which it expires, or a list of strings, head first. A marker
//! that has expired counts as absent, and a list never stays empty. The
//! store carries out one command at a time.

use vstd::prelude::*;
use crate::command::{CommandView, ReplyView};
use crate::error::StoreError;

verus! {

/// What a key holds.
pub enum Entry {
    /// A value that is gone from the instant `expires_at` on.
    Marker { value: Seq<char>, expires_at: nat },
    /// A list, head first.
    List(Seq<Seq<char>>),
}

/// The contents of the store.
pub struct StoreState {
    pub entries: Map<Seq<char>, Entry>,
}

/// The first `count` entries of `list`, or all of it where it has fewer.
pub open spec fn head(list: Seq<Seq<char>>, count: nat) -> Seq<Seq<char>> {
    if count < list.len() {
        list.take(count as int)
    } else {
        list
    }
}

impl StoreState {
    /// The store with no key.
    pub open spec fn empty() -> StoreState {
        StoreState { entries: Map::empty() }
    }

    /// What `key` holds at the instant `now`: nothing where the key is
    /// absent or its marker has expired.
    pub open spec fn holds(self, now: nat, key: Seq<char>) -> Option<Entry> {
        if self.entries.contains_key(key) {
            match self.entries[key] {
                Entry::Marker { value, expires_at } => if now < expires_at {
                    Some(self.entries[key])
                } else {
                    None
                },
                Entry::List(_) => Some(self.entries[key]),
            }
        } else {
            None
        }
    }

    /// Whether `key` holds a marker that has not expired at the instant `now`.
    pub open spec fn marked(self, now: nat, key: Seq<char>) -> bool {
        self.holds(now, key) is Some && self.holds(now, key)->0 is Marker
    }

    /// The list at `key`, empty where the key holds none.
    pub open spec fn list_at(self, key: Seq<char>) -> Seq<Seq<char>> {
        if self.entries.contains_key(key) && self.entries[key] is List {
            self.entries[key]->List_0
        } else {
            Seq::empty()
        }
    }

    /// The store with `entry` at `key`.
    pub open spec fn with(self, key: Seq<char>, entry: Entry) -> StoreState {
        StoreState { entries: self.entries.insert(key, entry) }
    }

    /// The store without `key`.
    pub open spec fn without(self, key: Seq<char>) -> StoreState {
        StoreState { entries: self.entries.remove(key) }
    }

    /// The store after `command` at the instant `now`, and its reply.
    ///
    /// - A conditional write with a time to live of zero is refused. On a key
    ///   that holds something it changes nothing and reports `false`. On an
    ///   absent key it creates the marker and reports `true`.
    /// - A delete removes the key, present or not.
    /// - A push of no value is refused, and so is one onto a marker. Else
    ///   the values go one after another onto the head of the list, the last
    ///   of them ending up first, and the list keeps its first `keep`
    ///   entries; a list left empty is removed.
    /// - A read reports the first `count` entries, none for an absent key,
    ///   and is refused on a marker.
    pub open spec fn apply(self, now: nat, command: CommandView) -> (StoreState, ReplyView) {
        match command {
            CommandView::SetIfAbsent { key, value, ttl_secs } => {
                if ttl_secs == 0 {
                    (self, ReplyView::Failed(StoreError::Rejected))
                } else if self.holds(now, key) is Some {
                    (self, ReplyView::Flag(false))
                } else {
                    (
                        self.with(key, Entry::Marker { value, expires_at: now + ttl_secs }),
                        ReplyView::Flag(true),
                    )
                }
            },
            CommandView::Delete { key } => (self.without(key), ReplyView::Done),
            CommandView::PushTrim { key, values, keep } => {
                if values.len() == 0 || self.marked(now, key) {
                    (self, ReplyView::Failed(StoreError::Rejected))
                } else {
                    let list = head(values.reverse() + self.list_at(key), keep);
                    if list.len() == 0 {
                        (self.without(key), ReplyView::Done)
                    } else {
                        (self.with(key, Entry::List(list)), ReplyView::Done)
                    }
                }
            },
            CommandView::Range { key, count } => {
                if self.marked(now, key) {
                    (self, ReplyView::Failed(StoreError::Rejected))
                } else {
                    (self, ReplyView::Items(head(self.list_at(key), count)))
                }
            },
        }
    }

    /// No key holds an empty list.
    pub open spec fn well_formed(self) -> bool {
        forall|key: Seq<char>| #[trigger]
            self.entries.contains_key(key) ==> self.entries[key] != Entry::List(Seq::empty())
    }
}

/// A command leaves every key but its own as it was.
pub proof fn lemma_apply_frame(store: StoreState, now: nat, command: CommandView, other: Seq<char>)
    requires
        other != command.key(),
    ensures
        store.apply(now, command).0.entries.contains_key(other) == store.entries.contains_key(
            other,
        ),
        store.apply(now, command).0.entries.contains_key(other) ==> store.apply(
            now,
            command,
        ).0.entries[other] == store.entries[other],
        forall|at: nat| store.apply(now, command).0.holds(at, other) == store.holds(at, other),
{
}

/// No command leaves an empty list behind.
pub proof fn lemma_apply_well_formed(store: StoreState, now: nat, command: CommandView)
    requires
        store.well_formed(),
    ensures
        store.apply(now, command).0.well_formed(),
{
    let after = store.apply(now, command).0;
    assert forall|key: Seq<char>| #[trigger] after.entries.contains_key(key) implies after.entries[key]
        != Entry::List(Seq::empty()) by {
        if key == command.key() {
            match command {
                CommandView::PushTrim { key: target, values, keep } => {
                    let list = head(values.reverse() + store.list_at(target), keep);
                    if after.entries[key] == Entry::List(Seq::empty()) {
                        if values.len() == 0 || store.marked(now, target) {
                            assert(store.entries.contains_key(key));
                        } else {
                            assert(list.len() != 0);
                            assert(list =~= Seq::<Seq<char>>::empty());
                        }
                    }
                },
                _ => {
                    assert(after.entries.contains_key(key) && after.entries[key] is List
                        ==> store.entries.contains_key(key) && store.entries[key]
                        == after.entries[key]);
                },
            }
        } else {
            assert(store.entries.contains_key(key));
        }
    }
}

} // verus!
