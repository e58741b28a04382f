//! The deduplication lock: a marker per message identity that admits one
//! processing attempt at a time and expires by itself.
//!
//! Acquiring is one conditional write with a time to live, so that checking
//! for the marker and creating it cannot be separated. Releasing is a plain
//! delete. A holder that never releases is overtaken by the expiry.

use vstd::prelude::*;
use vstd::string::*;
use crate::command::{Command, CommandView, Reply, ReplyView};
use crate::store::StoreState;

verus! {

/// The number of seconds after which a marker expires by itself.
pub const LOCK_TTL_SECS: u32 = 10;

/// The key of the marker for a message identity.
pub open spec fn lock_key_of(message_id: Seq<char>) -> Seq<char> {
    "message_lock_"@ + message_id
}

/// The command that tries to take the lock for a message identity.
pub open spec fn acquire_command(message_id: Seq<char>) -> CommandView {
    CommandView::SetIfAbsent {
        key: lock_key_of(message_id),
        value: "true"@,
        ttl_secs: LOCK_TTL_SECS as nat,
    }
}

/// The command that gives the lock for a message identity back.
pub open spec fn release_command(message_id: Seq<char>) -> CommandView {
    CommandView::Delete { key: lock_key_of(message_id) }
}

/// Whether a reply to an acquire says that the lock was obtained.
pub open spec fn granted(reply: ReplyView) -> bool {
    reply == ReplyView::Flag(true)
}

/// Whether the lock for a message identity is taken at the instant `now`.
pub open spec fn held(store: StoreState, now: nat, message_id: Seq<char>) -> bool {
    store.holds(now, lock_key_of(message_id)) is Some
}

/// The key of the marker for a message identity.
pub fn lock_key(message_id: &str) -> (key: String)
    ensures
        key@ == lock_key_of(message_id@),
{
    let mut key = String::from_str("message_lock_");
    key.append(message_id);
    key
}

/// The command that tries to take the lock for `message_id`: it creates the
/// marker only if there is none, with the fixed time to live.
pub fn acquire_lock(message_id: &str) -> (command: Command)
    ensures
        command@ == acquire_command(message_id@),
{
    Command::SetIfAbsent {
        key: lock_key(message_id),
        value: String::from_str("true"),
        ttl_secs: LOCK_TTL_SECS,
    }
}

/// Reads the reply to an acquire: the lock is obtained exactly when the
/// store reports that it created the marker. A marker that was there
/// already, a failure to reach the store and any other reply all mean that
/// the caller must not go on.
pub fn lock_granted(reply: &Reply) -> (yes: bool)
    ensures
        yes == granted(reply@),
{
    match reply {
        Reply::Flag(created) => *created,
        _ => false,
    }
}

/// The command that gives the lock for `message_id` back: it deletes the
/// marker, whether or not there is one.
pub fn release_lock(message_id: &str) -> (command: Command)
    ensures
        command@ == release_command(message_id@),
{
    Command::Delete { key: lock_key(message_id) }
}

/// An acquire is granted exactly when the lock is free. A granted acquire
/// takes the lock until the time to live has passed and no longer; a denied
/// one changes nothing.
pub proof fn lemma_acquire(store: StoreState, now: nat, message_id: Seq<char>)
    ensures
        granted(store.apply(now, acquire_command(message_id)).1) == !held(store, now, message_id),
        held(store, now, message_id) ==> store.apply(now, acquire_command(message_id)).0 == store,
        !held(store, now, message_id) ==> forall|later: nat|
            held(store.apply(now, acquire_command(message_id)).0, later, message_id) == (later < now
                + LOCK_TTL_SECS),
{
}

/// The replies to acquires for one message identity at the instants
/// `times`, one after another, each told as granted or denied, and the store
/// after the last.
pub open spec fn attempts(store: StoreState, message_id: Seq<char>, times: Seq<nat>) -> (
    StoreState,
    Seq<bool>,
)
    decreases times.len(),
{
    if times.len() == 0 {
        (store, Seq::empty())
    } else {
        let earlier = attempts(store, message_id, times.drop_last());
        let step = earlier.0.apply(times.last(), acquire_command(message_id));
        (step.0, earlier.1.push(granted(step.1)))
    }
}

/// Mutual exclusion: of any number of acquires for one message identity
/// that reach the store, in whatever order, while none of them could have
/// expired, the first is granted and every other is denied, where the
/// lock was free before the first.
pub proof fn lemma_mutual_exclusion(store: StoreState, message_id: Seq<char>, times: Seq<nat>)
    requires
        times.len() >= 1,
        !held(store, times[0], message_id),
        forall|i: int| 0 <= i < times.len() ==> times[0] <= #[trigger] times[i] < times[0] + LOCK_TTL_SECS,
    ensures
        attempts(store, message_id, times).1.len() == times.len(),
        attempts(store, message_id, times).1[0],
        forall|i: int| 1 <= i < times.len() ==> !(#[trigger] attempts(store, message_id, times).1[i]),
        forall|later: nat|
            held(attempts(store, message_id, times).0, later, message_id) == (later < times[0]
                + LOCK_TTL_SECS),
    decreases times.len(),
{
    let first = store.apply(times[0], acquire_command(message_id));
    lemma_acquire(store, times[0], message_id);
    if times.len() == 1 {
        assert(times.drop_last() =~= Seq::<nat>::empty());
        assert(attempts(store, message_id, times.drop_last()).1 =~= Seq::<bool>::empty());
        assert(attempts(store, message_id, times.drop_last()).0 == store);
        assert(times.last() == times[0]);
    } else {
        let before = times.drop_last();
        assert(before[0] == times[0]);
        assert forall|i: int| 0 <= i < before.len() implies before[0] <= #[trigger] before[i]
            < before[0] + LOCK_TTL_SECS by {
            assert(before[i] == times[i]);
        }
        lemma_mutual_exclusion(store, message_id, before);
        let earlier = attempts(store, message_id, before);
        assert(times[times.len() - 1] == times.last());
        assert(held(earlier.0, times.last(), message_id));
        lemma_acquire(earlier.0, times.last(), message_id);
    }
}

/// Self-heal: once the time to live has passed since a granted acquire, the
/// lock can be acquired again though nobody released it.
pub proof fn lemma_expiry_frees(store: StoreState, taken: nat, now: nat, message_id: Seq<char>)
    requires
        granted(store.apply(taken, acquire_command(message_id)).1),
        now >= taken + LOCK_TTL_SECS,
    ensures
        granted(
            store.apply(taken, acquire_command(message_id)).0.apply(
                now,
                acquire_command(message_id),
            ).1,
        ),
{
    lemma_acquire(store, taken, message_id);
    lemma_acquire(store.apply(taken, acquire_command(message_id)).0, now, message_id);
}

/// Idempotent release: the store never refuses a release, held or not; it
/// leaves the lock free, and a second release changes nothing more.
pub proof fn lemma_release(store: StoreState, now: nat, again: nat, message_id: Seq<char>)
    ensures
        store.apply(now, release_command(message_id)).1 == ReplyView::Done,
        forall|later: nat| !held(store.apply(now, release_command(message_id)).0, later, message_id),
        store.apply(now, release_command(message_id)).0.apply(
            again,
            release_command(message_id),
        ) == store.apply(now, release_command(message_id)),
{
    let once = store.apply(now, release_command(message_id)).0;
    let twice = once.apply(again, release_command(message_id)).0;
    assert(twice.entries =~= once.entries);
}

/// A release makes the next acquire succeed.
pub proof fn lemma_release_frees(store: StoreState, now: nat, next: nat, message_id: Seq<char>)
    ensures
        granted(
            store.apply(now, release_command(message_id)).0.apply(
                next,
                acquire_command(message_id),
            ).1,
        ),
{
    lemma_release(store, now, now, message_id);
    lemma_acquire(store.apply(now, release_command(message_id)).0, next, message_id);
}

/// No two message identities share a lock key.
pub proof fn lemma_lock_keys_apart(message_id: Seq<char>, other_id: Seq<char>)
    ensures
        message_id != other_id ==> lock_key_of(message_id) != lock_key_of(other_id),
{
    let prefix = "message_lock_"@;
    if lock_key_of(message_id) == lock_key_of(other_id) {
        assert(message_id =~= lock_key_of(message_id).subrange(
            prefix.len() as int,
            lock_key_of(message_id).len() as int,
        ));
        assert(other_id =~= lock_key_of(other_id).subrange(
            prefix.len() as int,
            lock_key_of(other_id).len() as int,
        ));
    }
}

/// The lock of one message is no concern of another: taking or releasing
/// it leaves the lock of every other message identity as it is.
pub proof fn lemma_locks_apart(
    store: StoreState,
    now: nat,
    message_id: Seq<char>,
    other_id: Seq<char>,
)
    requires
        message_id != other_id,
    ensures
        forall|later: nat|
            held(store.apply(now, acquire_command(message_id)).0, later, other_id) == held(
                store,
                later,
                other_id,
            ),
        forall|later: nat|
            held(store.apply(now, release_command(message_id)).0, later, other_id) == held(
                store,
                later,
                other_id,
            ),
{
    lemma_lock_keys_apart(message_id, other_id);
}

} // verus!
