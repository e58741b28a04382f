//! A store held in memory that carries out commands as the store model says.
//!
//! It stands in for the real store wherever no connection is at hand, and
//! it lets the lock and the window be run from end to end.

use vstd::prelude::*;
use crate::command::{Command, Reply};
use crate::error::StoreError;
use crate::store::{head, Entry, StoreState};

verus! {

/// What a key of the store in memory holds.
enum Held {
    Marker { value: String, expires_at: u128 },
    List(Vec<String>),
}

impl View for Held {
    type V = Entry;

    closed spec fn view(&self) -> Entry {
        match *self {
            Held::Marker { value, expires_at } => Entry::Marker {
                value: value@,
                expires_at: expires_at as nat,
            },
            Held::List(list) => Entry::List(list.deep_view()),
        }
    }
}

/// One key with what it holds.
struct Slot {
    key: String,
    held: Held,
}

/// The map that a sequence of slots stands for; a later slot overrides an
/// earlier one with the same key.
spec fn entries_of(slots: Seq<Slot>) -> Map<Seq<char>, Entry>
    decreases slots.len(),
{
    if slots.len() == 0 {
        Map::empty()
    } else {
        entries_of(slots.drop_last()).insert(slots.last().key@, slots.last().held@)
    }
}

/// No two slots have the same key.
spec fn distinct(slots: Seq<Slot>) -> bool {
    forall|i: int, j: int|
        0 <= i < slots.len() && 0 <= j < slots.len() && i != j ==> slots[i].key@ != slots[j].key@
}

proof fn lemma_entries_absent(slots: Seq<Slot>, key: Seq<char>)
    requires
        forall|i: int| 0 <= i < slots.len() ==> slots[i].key@ != key,
    ensures
        !entries_of(slots).contains_key(key),
    decreases slots.len(),
{
    if slots.len() > 0 {
        lemma_entries_absent(slots.drop_last(), key);
    }
}

proof fn lemma_entries_present(slots: Seq<Slot>, at: int)
    requires
        distinct(slots),
        0 <= at < slots.len(),
    ensures
        entries_of(slots).contains_key(slots[at].key@),
        entries_of(slots)[slots[at].key@] == slots[at].held@,
    decreases slots.len(),
{
    if at < slots.len() - 1 {
        lemma_entries_present(slots.drop_last(), at);
    }
}

proof fn lemma_entries_remove(slots: Seq<Slot>, at: int)
    requires
        distinct(slots),
        0 <= at < slots.len(),
    ensures
        distinct(slots.remove(at)),
        entries_of(slots.remove(at)) == entries_of(slots).remove(slots[at].key@),
        forall|i: int| 0 <= i < slots.remove(at).len() ==> slots.remove(at)[i].key@ != slots[at].key@,
    decreases slots.len(),
{
    let rest = slots.remove(at);
    assert forall|i: int| 0 <= i < rest.len() implies rest[i].key@ != slots[at].key@ by {
        if i < at {
            assert(rest[i] == slots[i]);
        } else {
            assert(rest[i] == slots[i + 1]);
        }
    }
    assert forall|i: int, j: int| 0 <= i < rest.len() && 0 <= j < rest.len() && i != j implies rest[i].key@
        != rest[j].key@ by {
        let before_i = if i < at { i } else { i + 1 };
        let before_j = if j < at { j } else { j + 1 };
        assert(rest[i] == slots[before_i]);
        assert(rest[j] == slots[before_j]);
    }
    if at == slots.len() - 1 {
        assert(rest =~= slots.drop_last());
        lemma_entries_absent(rest, slots[at].key@);
        assert(entries_of(rest) =~= entries_of(slots).remove(slots[at].key@));
    } else {
        assert(rest.drop_last() =~= slots.drop_last().remove(at));
        assert(rest.last() == slots.last());
        lemma_entries_remove(slots.drop_last(), at);
        assert(slots.drop_last()[at] == slots[at]);
        assert(entries_of(rest) =~= entries_of(slots).remove(slots[at].key@));
    }
}

proof fn lemma_entries_push(slots: Seq<Slot>, slot: Slot)
    requires
        distinct(slots),
        forall|i: int| 0 <= i < slots.len() ==> slots[i].key@ != slot.key@,
    ensures
        distinct(slots.push(slot)),
        entries_of(slots.push(slot)) == entries_of(slots).insert(slot.key@, slot.held@),
{
    assert(slots.push(slot).drop_last() =~= slots);
}

/// A key-value store in memory.
pub struct MemoryStore {
    slots: Vec<Slot>,
}

impl View for MemoryStore {
    type V = StoreState;

    closed spec fn view(&self) -> StoreState {
        StoreState { entries: entries_of(self.slots@) }
    }
}

impl MemoryStore {
    /// The invariant of the representation; it implies that no key holds an
    /// empty list.
    pub closed spec fn well_formed(&self) -> bool {
        &&& distinct(self.slots@)
        &&& self@.well_formed()
    }

    /// Well-formedness of the store in memory carries over to its contents.
    pub proof fn lemma_well_formed(&self)
        requires
            self.well_formed(),
        ensures
            self@.well_formed(),
    {
    }

    /// A store with no key.
    pub fn new() -> (store: MemoryStore)
        ensures
            store.well_formed(),
            store@ == StoreState::empty(),
    {
        let store = MemoryStore { slots: Vec::new() };
        assert(store@.entries =~= Map::empty());
        store
    }

    /// Where `key` is among the slots.
    fn position(&self, key: &String) -> (found: Option<usize>)
        ensures
            match found {
                Some(at) => at < self.slots.len() && self.slots[at as int].key@ == key@,
                None => forall|i: int| 0 <= i < self.slots.len() ==> self.slots[i].key@ != key@,
            },
    {
        let mut at: usize = 0;
        while at < self.slots.len()
            invariant
                at <= self.slots.len(),
                forall|i: int| 0 <= i < at ==> self.slots[i].key@ != key@,
            decreases self.slots.len() - at,
        {
            if self.slots[at].key == *key {
                return Some(at);
            }
            at += 1;
        }
        None
    }

    /// Takes `key` out of the store and hands back what it held at the
    /// instant `now`: an expired marker counts as nothing.
    fn take(&mut self, key: &String, now: u64) -> (taken: Option<Held>)
        requires
            old(self).well_formed(),
        ensures
            final(self).well_formed(),
            final(self)@ == old(self)@.without(key@),
            forall|i: int| 0 <= i < final(self).slots.len() ==> final(self).slots[i].key@ != key@,
            match taken {
                Some(held) => old(self)@.holds(now as nat, key@) == Some(held@),
                None => old(self)@.holds(now as nat, key@) is None,
            },
    {
        let ghost before = self.slots@;
        match self.position(key) {
            Some(at) => {
                proof {
                    lemma_entries_present(before, at as int);
                    lemma_entries_remove(before, at as int);
                }
                let slot = self.slots.remove(at);
                assert(self@.well_formed()) by {
                    assert forall|k: Seq<char>| #[trigger]
                        self@.entries.contains_key(k) implies self@.entries[k] != Entry::List(
                        Seq::empty(),
                    ) by {
                        assert(old(self)@.entries.contains_key(k));
                    }
                }
                match slot.held {
                    Held::Marker { value, expires_at } => {
                        if (now as u128) < expires_at {
                            Some(Held::Marker { value, expires_at })
                        } else {
                            None
                        }
                    },
                    Held::List(list) => Some(Held::List(list)),
                }
            },
            None => {
                proof {
                    lemma_entries_absent(before, key@);
                    assert(self@.entries =~= old(self)@.entries.remove(key@));
                }
                None
            },
        }
    }

    /// Puts `held` at `key`, which the store does not have.
    fn put(&mut self, key: &String, held: Held)
        requires
            old(self).well_formed(),
            forall|i: int| 0 <= i < old(self).slots.len() ==> old(self).slots[i].key@ != key@,
            held@ != Entry::List(Seq::empty()),
        ensures
            final(self).well_formed(),
            final(self)@ == old(self)@.with(key@, held@),
    {
        let slot = Slot { key: key.clone(), held };
        proof {
            lemma_entries_push(self.slots@, slot);
        }
        self.slots.push(slot);
    }

    /// Carries out `command` at the instant `now`, in seconds, and answers
    /// as the store does.
    pub fn execute(&mut self, command: &Command, now: u64) -> (reply: Reply)
        requires
            old(self).well_formed(),
        ensures
            final(self).well_formed(),
            (final(self)@, reply@) == old(self)@.apply(now as nat, command@),
    {
        match command {
            Command::SetIfAbsent { key, value, ttl_secs } => {
                if *ttl_secs == 0 {
                    return Reply::Failed(StoreError::Rejected);
                }
                match self.take(key, now) {
                    Some(held) => {
                        assert(old(self)@.entries.contains_key(key@));
                        self.put(key, held);
                        assert(self@.entries =~= old(self)@.entries);
                        Reply::Flag(false)
                    },
                    None => {
                        let expires_at: u128 = now as u128 + *ttl_secs as u128;
                        self.put(key, Held::Marker { value: value.clone(), expires_at });
                        assert(self@.entries =~= old(self)@.with(
                            key@,
                            Entry::Marker { value: value@, expires_at: (now + *ttl_secs) as nat },
                        ).entries);
                        Reply::Flag(true)
                    },
                }
            },
            Command::Delete { key } => {
                let _ = self.take(key, now);
                Reply::Done
            },
            Command::PushTrim { key, values, keep } => {
                assert(values.deep_view().len() == values.len());
                if values.len() == 0 {
                    return Reply::Failed(StoreError::Rejected);
                }
                let older = match self.take(key, now) {
                    Some(Held::Marker { value, expires_at }) => {
                        assert(old(self)@.entries.contains_key(key@));
                        self.put(key, Held::Marker { value, expires_at });
                        assert(self@.entries =~= old(self)@.entries);
                        return Reply::Failed(StoreError::Rejected);
                    },
                    Some(Held::List(list)) => list,
                    None => Vec::new(),
                };
                assert(!old(self)@.marked(now as nat, key@));
                assert(older.deep_view() =~= old(self)@.list_at(key@));
                let list = pushed(values, &older, *keep);
                assert(list.deep_view().len() == list.len());
                if list.len() > 0 {
                    self.put(key, Held::List(list));
                    assert(self@.entries =~= old(self)@.with(
                        key@,
                        Entry::List(list.deep_view()),
                    ).entries);
                }
                Reply::Done
            },
            Command::Range { key, count } => {
                let ghost nothing = Seq::<Seq<char>>::empty();
                match self.position(key) {
                    Some(at) => {
                        proof {
                            lemma_entries_present(self.slots@, at as int);
                        }
                        match &self.slots[at].held {
                            Held::Marker { value, expires_at } => {
                                if (now as u128) < *expires_at {
                                    Reply::Failed(StoreError::Rejected)
                                } else {
                                    let items: Vec<String> = Vec::new();
                                    assert(items.deep_view() =~= nothing);
                                    assert(head(nothing, *count as nat) =~= nothing);
                                    Reply::Items(items)
                                }
                            },
                            Held::List(list) => Reply::Items(first(list, *count)),
                        }
                    },
                    None => {
                        proof {
                            lemma_entries_absent(self.slots@, key@);
                        }
                        let items: Vec<String> = Vec::new();
                        assert(items.deep_view() =~= nothing);
                        assert(head(nothing, *count as nat) =~= nothing);
                        Reply::Items(items)
                    },
                }
            },
        }
    }
}

/// A copy of the first `count` entries of `list`.
fn first(list: &Vec<String>, count: u32) -> (copy: Vec<String>)
    ensures
        copy.deep_view() == head(list.deep_view(), count as nat),
{
    let mut copy: Vec<String> = Vec::new();
    let mut at: usize = 0;
    while at < list.len() && at < count as usize
        invariant
            at <= list.len(),
            at <= count,
            copy.deep_view() == list.deep_view().take(at as int),
        decreases list.len() - at,
    {
        let ghost before = copy.deep_view();
        copy.push(list[at].clone());
        assert(copy.deep_view() =~= before.push(list[at as int]@));
        assert(list.deep_view().take(at + 1) =~= list.deep_view().take(at as int).push(
            list[at as int]@,
        ));
        at += 1;
    }
    assert(list.deep_view().take(list.len() as int) =~= list.deep_view());
    copy
}

/// The list that results from pushing `values` one after another onto the
/// head of `older` and keeping the first `keep` entries.
fn pushed(values: &Vec<String>, older: &Vec<String>, keep: u32) -> (list: Vec<String>)
    ensures
        list.deep_view() == head(values.deep_view().reverse() + older.deep_view(), keep as nat),
{
    let ghost whole = values.deep_view().reverse() + older.deep_view();
    let mut list: Vec<String> = Vec::new();
    let mut left: usize = values.len();
    while left > 0 && list.len() < keep as usize
        invariant
            left <= values.len(),
            list.len() == values.len() - left,
            list.len() <= keep,
            whole == values.deep_view().reverse() + older.deep_view(),
            list.deep_view() == whole.take(list.len() as int),
        decreases left,
    {
        left -= 1;
        let ghost before = list.deep_view();
        list.push(values[left].clone());
        assert(list.deep_view() =~= before.push(values[left as int]@));
        assert(whole[list.len() - 1] == values[left as int]@);
        assert(whole.take(list.len() as int) =~= whole.take(list.len() - 1).push(
            values[left as int]@,
        ));
    }
    if left == 0 {
        let mut at: usize = 0;
        while at < older.len() && list.len() < keep as usize
            invariant
                at <= older.len(),
                list.len() == values.len() + at,
                list.len() <= keep,
                whole == values.deep_view().reverse() + older.deep_view(),
                list.deep_view() == whole.take(list.len() as int),
            decreases older.len() - at,
        {
            let ghost before = list.deep_view();
            list.push(older[at].clone());
            assert(list.deep_view() =~= before.push(older[at as int]@));
            assert(whole[list.len() - 1] == older[at as int]@);
            assert(whole.take(list.len() as int) =~= whole.take(list.len() - 1).push(
                older[at as int]@,
            ));
            at += 1;
        }
    }
    assert(whole.take(whole.len() as int) =~= whole);
    list
}

} // verus!
