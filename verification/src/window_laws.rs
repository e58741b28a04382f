//! The laws of the conversation window, proved from what the store does
//! with a command.

use vstd::prelude::*;
use crate::command::ReplyView;
use crate::error::StoreError;
use crate::lock::{acquire_command, lemma_lock_keys_apart, lock_key_of, release_command};
use crate::message::{decode, encode, lemma_decode_encode, lemma_encode_decodes, Turn, DELIMITER};
use crate::store::{head, StoreState};
use crate::window::{
    after_appends, append_command, bounded, clear_command, decodable, encode_all, ends_with,
    latest, orderly, plain_roles, read_command, turns_in, turns_of, window, window_key_of,
};

verus! {

/// The turns of two stored lists laid end to end: the second list is the
/// older one, so its turns come first.
pub proof fn lemma_turns_of_concat(newer: Seq<Seq<char>>, older: Seq<Seq<char>>)
    ensures
        turns_of(newer + older) == turns_of(older) + turns_of(newer),
    decreases newer.len(),
{
    if newer.len() == 0 {
        assert(newer + older =~= older);
        assert(turns_of(older) + turns_of(newer) =~= turns_of(older));
    } else {
        assert((newer + older).drop_first() =~= newer.drop_first() + older);
        assert((newer + older)[0] == newer[0]);
        lemma_turns_of_concat(newer.drop_first(), older);
        let rest = turns_of(older) + turns_of(newer.drop_first());
        match decode(newer[0]) {
            Some(turn) => {
                assert(rest.push(turn) =~= turns_of(older) + turns_of(newer.drop_first()).push(
                    turn,
                ));
            },
            None => {},
        }
    }
}

/// A stored list stands for at most as many turns as it has entries, and
/// for exactly as many where every entry decodes.
pub proof fn lemma_turns_of_len(stored: Seq<Seq<char>>)
    ensures
        turns_of(stored).len() <= stored.len(),
        decodable(stored) ==> turns_of(stored).len() == stored.len(),
    decreases stored.len(),
{
    if stored.len() > 0 {
        lemma_turns_of_len(stored.drop_first());
        if decodable(stored) {
            assert forall|i: int| 0 <= i < stored.drop_first().len() implies decode(
                #[trigger] stored.drop_first()[i],
            ) is Some by {
                assert(stored.drop_first()[i] == stored[i + 1]);
            }
            assert(decode(stored[0]) is Some);
        }
    }
}

/// Turns with plain roles come back from their stored forms: pushed one
/// after another they lie newest first, and read back they are the turns
/// that went in, in their order.
pub proof fn lemma_turns_of_encoded(turns: Seq<Turn>)
    requires
        plain_roles(turns),
    ensures
        turns_of(encode_all(turns).reverse()) == turns,
        decodable(encode_all(turns).reverse()),
    decreases turns.len(),
{
    let stored = encode_all(turns).reverse();
    assert forall|i: int| 0 <= i < stored.len() implies decode(#[trigger] stored[i]) is Some by {
        lemma_encode_decodes(turns[turns.len() - 1 - i]);
    }
    if turns.len() == 0 {
        assert(turns_of(stored) =~= turns);
    } else {
        let before = turns.drop_last();
        assert(stored.drop_first() =~= encode_all(before).reverse());
        assert(stored[0] == encode(turns.last()));
        lemma_plain_roles_within(turns, 0, turns.len() - 1);
        lemma_turns_of_encoded(before);
        lemma_decode_encode(turns.last());
        assert(before.push(turns.last()) =~= turns);
    }
}

/// A stretch of turns with plain roles has plain roles.
pub proof fn lemma_plain_roles_within(turns: Seq<Turn>, from: int, to: int)
    requires
        plain_roles(turns),
        0 <= from <= to <= turns.len(),
    ensures
        plain_roles(turns.subrange(from, to)),
{
    let part = turns.subrange(from, to);
    assert forall|i: int| 0 <= i < part.len() implies !(#[trigger] part[i]).role.contains(
        DELIMITER,
    ) by {
        assert(part[i] == turns[from + i]);
    }
}

/// Trimming a stored list whose entries all decode keeps its latest turns.
pub proof fn lemma_turns_of_head(stored: Seq<Seq<char>>, limit: nat)
    requires
        decodable(stored),
    ensures
        turns_of(head(stored, limit)) == latest(turns_of(stored), limit),
        decodable(head(stored, limit)),
{
    lemma_turns_of_len(stored);
    if limit < stored.len() {
        let kept = stored.take(limit as int);
        let cut = stored.skip(limit as int);
        assert(stored =~= kept + cut);
        lemma_turns_of_concat(kept, cut);
        assert(decodable(kept)) by {
            assert forall|i: int| 0 <= i < kept.len() implies decode(#[trigger] kept[i]) is Some by {
                assert(kept[i] == stored[i]);
            }
        }
        assert(decodable(cut)) by {
            assert forall|i: int| 0 <= i < cut.len() implies decode(#[trigger] cut[i]) is Some by {
                assert(cut[i] == stored[i + limit]);
            }
        }
        lemma_turns_of_len(kept);
        lemma_turns_of_len(cut);
        assert(latest(turns_of(stored), limit) =~= turns_of(kept));
    }
}

/// Trimming after each push is trimming once at the end.
pub proof fn lemma_head_absorbs(newer: Seq<Seq<char>>, older: Seq<Seq<char>>, limit: nat)
    ensures
        head(newer + head(older, limit), limit) == head(newer + older, limit),
{
    assert(head(newer + head(older, limit), limit) =~= head(newer + older, limit));
}

/// Filling: where at least `limit` turns with plain roles were pushed, the
/// trimmed list stands for the latest `limit` of them and for nothing of
/// what lay below.
pub proof fn lemma_pushed_fill(turns: Seq<Turn>, older: Seq<Seq<char>>, limit: nat)
    requires
        plain_roles(turns),
        turns.len() >= limit,
    ensures
        turns_of(head(encode_all(turns).reverse() + older, limit)) == latest(turns, limit),
{
    let kept = latest(turns, limit);
    lemma_plain_roles_within(turns, turns.len() - limit, turns.len() as int);
    assert(kept =~= turns.subrange(turns.len() - limit, turns.len() as int));
    lemma_turns_of_encoded(kept);
    assert(head(encode_all(turns).reverse() + older, limit) =~= encode_all(kept).reverse());
}

/// Pushing onto a list whose entries all decode: the trimmed list stands
/// for the old turns followed by the pushed ones, cut down to the latest
/// `limit`, and its entries all decode again.
pub proof fn lemma_pushed_onto(turns: Seq<Turn>, older: Seq<Seq<char>>, limit: nat)
    requires
        plain_roles(turns),
        decodable(older),
    ensures
        turns_of(head(encode_all(turns).reverse() + older, limit)) == latest(
            turns_of(older) + turns,
            limit,
        ),
        decodable(head(encode_all(turns).reverse() + older, limit)),
{
    let pushed = encode_all(turns).reverse();
    lemma_turns_of_encoded(turns);
    assert forall|i: int| 0 <= i < (pushed + older).len() implies decode(
        #[trigger] (pushed + older)[i],
    ) is Some by {
        if i < pushed.len() {
            assert((pushed + older)[i] == pushed[i]);
        } else {
            assert((pushed + older)[i] == older[i - pushed.len()]);
        }
    }
    lemma_turns_of_head(pushed + older, limit);
    lemma_turns_of_concat(pushed, older);
}

/// What an append does to the stored list: unless the user's key holds a
/// marker that has not expired, a batch of at least one turn is accepted, and
/// the list is then
/// the stored forms of the batch, the last turn first, followed by the old
/// list, and of all that the first `limit` entries.
pub proof fn lemma_append_stored(
    store: StoreState,
    now: nat,
    user_id: Seq<char>,
    batch: Seq<Turn>,
    limit: nat,
)
    requires
        !store.marked(now, window_key_of(user_id)),
        batch.len() >= 1,
    ensures
        store.apply(now, append_command(user_id, batch, limit)).1 == ReplyView::Done,
        store.apply(now, append_command(user_id, batch, limit)).0.list_at(window_key_of(user_id))
            == head(encode_all(batch).reverse() + store.list_at(window_key_of(user_id)), limit),
        forall|later: nat|
            !store.apply(now, append_command(user_id, batch, limit)).0.marked(
                later,
                window_key_of(user_id),
            ),
{
}

/// Append: a batch of at least one turn with plain roles is taken as a
/// whole, unless the user's key holds a marker that has not expired.
///
/// - A batch of at most `limit` turns is all there afterwards, in its
///   order, behind what the newest entries of the old list stand for.
/// - Of a longer batch the latest `limit` turns are there, and nothing else.
/// - Where the window invariant held before, the window is the old window
///   followed by the batch, cut down to its latest `limit` turns, and the
///   invariant holds again.
pub proof fn lemma_append(
    store: StoreState,
    now: nat,
    user_id: Seq<char>,
    batch: Seq<Turn>,
    limit: nat,
)
    requires
        !store.marked(now, window_key_of(user_id)),
        batch.len() >= 1,
        plain_roles(batch),
    ensures
        store.apply(now, append_command(user_id, batch, limit)).1 == ReplyView::Done,
        batch.len() <= limit ==> window(
            store.apply(now, append_command(user_id, batch, limit)).0,
            user_id,
        ) == turns_of(
            head(store.list_at(window_key_of(user_id)), (limit - batch.len()) as nat),
        ) + batch,
        batch.len() <= limit ==> ends_with(
            window(store.apply(now, append_command(user_id, batch, limit)).0, user_id),
            batch,
        ),
        batch.len() >= limit ==> window(
            store.apply(now, append_command(user_id, batch, limit)).0,
            user_id,
        ) == latest(batch, limit),
        bounded(store, user_id, limit) ==> window(
            store.apply(now, append_command(user_id, batch, limit)).0,
            user_id,
        ) == latest(window(store, user_id) + batch, limit),
        bounded(store, user_id, limit) ==> bounded(
            store.apply(now, append_command(user_id, batch, limit)).0,
            user_id,
            limit,
        ),
{
    let key = window_key_of(user_id);
    let old_list = store.list_at(key);
    let pushed = encode_all(batch).reverse();
    lemma_append_stored(store, now, user_id, batch, limit);
    lemma_turns_of_encoded(batch);
    if batch.len() <= limit {
        let room = (limit - batch.len()) as nat;
        assert(head(pushed + old_list, limit) =~= pushed + head(old_list, room));
        lemma_turns_of_concat(pushed, head(old_list, room));
        let all = turns_of(head(old_list, room)) + batch;
        assert(all.skip(all.len() - batch.len()) =~= batch);
    }
    if batch.len() >= limit {
        lemma_pushed_fill(batch, old_list, limit);
    }
    if bounded(store, user_id, limit) {
        lemma_pushed_onto(batch, old_list, limit);
    }
}

/// Read: a read changes nothing. On a key that holds a marker that has
/// not expired it is refused; else it carries what the first `limit`
/// entries of the list stand for, oldest turn first, which is no turn for a
/// user without a window and the whole window where the invariant holds.
pub proof fn lemma_read(store: StoreState, now: nat, user_id: Seq<char>, limit: nat)
    ensures
        store.apply(now, read_command(user_id, limit)).0 == store,
        store.marked(now, window_key_of(user_id)) ==> turns_in(
            store.apply(now, read_command(user_id, limit)).1,
        ) == Err::<Seq<Turn>, StoreError>(StoreError::Rejected),
        !store.marked(now, window_key_of(user_id)) ==> turns_in(
            store.apply(now, read_command(user_id, limit)).1,
        ) == Ok::<Seq<Turn>, StoreError>(
            turns_of(head(store.list_at(window_key_of(user_id)), limit)),
        ),
        !store.entries.contains_key(window_key_of(user_id)) ==> turns_in(
            store.apply(now, read_command(user_id, limit)).1,
        ) == Ok::<Seq<Turn>, StoreError>(Seq::empty()),
        bounded(store, user_id, limit) ==> turns_in(
            store.apply(now, read_command(user_id, limit)).1,
        ) == Ok::<Seq<Turn>, StoreError>(window(store, user_id)),
{
}

/// What any number of appends, one turn at a time, do to the stored list:
/// it is then the stored forms of the turns, the last turn first, followed
/// by the old list, and of all that the first `limit` entries.
pub proof fn lemma_appends_stored(
    store: StoreState,
    times: Seq<nat>,
    user_id: Seq<char>,
    turns: Seq<Turn>,
    limit: nat,
)
    requires
        turns.len() >= 1,
        times.len() == turns.len(),
        !store.marked(times[0], window_key_of(user_id)),
    ensures
        after_appends(store, times, user_id, turns, limit).list_at(window_key_of(user_id)) == head(
            encode_all(turns).reverse() + store.list_at(window_key_of(user_id)),
            limit,
        ),
        forall|later: nat|
            !after_appends(store, times, user_id, turns, limit).marked(
                later,
                window_key_of(user_id),
            ),
    decreases turns.len(),
{
    let key = window_key_of(user_id);
    let last = seq![turns.last()];
    assert(encode_all(last).reverse() =~= seq![encode(turns.last())]);
    if turns.len() == 1 {
        assert(times.last() == times[0]);
        assert(after_appends(store, times.drop_last(), user_id, turns.drop_last(), limit) == store);
        lemma_append_stored(store, times[0], user_id, last, limit);
        assert(encode_all(turns).reverse() =~= seq![encode(turns.last())]);
    } else {
        let before = turns.drop_last();
        assert(times.drop_last()[0] == times[0]);
        lemma_appends_stored(store, times.drop_last(), user_id, before, limit);
        let middle = after_appends(store, times.drop_last(), user_id, before, limit);
        lemma_append_stored(middle, times.last(), user_id, last, limit);
        lemma_head_absorbs(
            seq![encode(turns.last())],
            encode_all(before).reverse() + store.list_at(key),
            limit,
        );
        assert(seq![encode(turns.last())] + (encode_all(before).reverse() + store.list_at(key))
            =~= encode_all(turns).reverse() + store.list_at(key));
    }
}

/// Bounded window: after turns with plain roles were appended one by one,
/// at least one and at least `limit` of them, a read returns exactly the
/// `limit` most recently appended turns, oldest first, whatever the list
/// held before. Where the window invariant held before, it holds again, and
/// after any number of appends the window is the old window followed by the
/// new turns, cut down to its latest `limit`.
pub proof fn lemma_appends(
    store: StoreState,
    times: Seq<nat>,
    now: nat,
    user_id: Seq<char>,
    turns: Seq<Turn>,
    limit: nat,
)
    requires
        plain_roles(turns),
        turns.len() >= 1,
        times.len() == turns.len(),
        !store.marked(times[0], window_key_of(user_id)),
    ensures
        turns.len() >= limit ==> turns_in(
            after_appends(store, times, user_id, turns, limit).apply(
                now,
                read_command(user_id, limit),
            ).1,
        ) == Ok::<Seq<Turn>, StoreError>(latest(turns, limit)),
        bounded(store, user_id, limit) ==> bounded(
            after_appends(store, times, user_id, turns, limit),
            user_id,
            limit,
        ),
        bounded(store, user_id, limit) ==> window(
            after_appends(store, times, user_id, turns, limit),
            user_id,
        ) == latest(window(store, user_id) + turns, limit),
        bounded(store, user_id, limit) ==> turns_in(
            after_appends(store, times, user_id, turns, limit).apply(
                now,
                read_command(user_id, limit),
            ).1,
        ) == Ok::<Seq<Turn>, StoreError>(latest(window(store, user_id) + turns, limit)),
{
    let key = window_key_of(user_id);
    let after = after_appends(store, times, user_id, turns, limit);
    let old_list = store.list_at(key);
    lemma_appends_stored(store, times, user_id, turns, limit);
    lemma_read(after, now, user_id, limit);
    assert(head(after.list_at(key), limit) =~= after.list_at(key));
    if turns.len() >= limit {
        lemma_pushed_fill(turns, old_list, limit);
    }
    if bounded(store, user_id, limit) {
        lemma_pushed_onto(turns, old_list, limit);
    }
}

/// Clear: the store never refuses a clear, with or without a window. After
/// it the user has no window and a read carries no turn; a second clear
/// changes nothing more.
pub proof fn lemma_clear(store: StoreState, now: nat, next: nat, user_id: Seq<char>, limit: nat)
    ensures
        store.apply(now, clear_command(user_id)).1 == ReplyView::Done,
        !store.apply(now, clear_command(user_id)).0.entries.contains_key(window_key_of(user_id)),
        bounded(store.apply(now, clear_command(user_id)).0, user_id, limit),
        window(store.apply(now, clear_command(user_id)).0, user_id) == Seq::<Turn>::empty(),
        turns_in(
            store.apply(now, clear_command(user_id)).0.apply(next, read_command(user_id, limit)).1,
        ) == Ok::<Seq<Turn>, StoreError>(Seq::empty()),
        store.apply(now, clear_command(user_id)).0.apply(next, clear_command(user_id))
            == store.apply(now, clear_command(user_id)),
{
    let cleared = store.apply(now, clear_command(user_id)).0;
    lemma_read(cleared, next, user_id, limit);
    assert(cleared.apply(next, clear_command(user_id)).0.entries =~= cleared.entries);
}

/// After a clear an append finds no trace of the old window: the window is
/// then the latest `limit` turns of the batch alone, as it is for a user who
/// never had a window.
pub proof fn lemma_append_after_clear(
    store: StoreState,
    now: nat,
    next: nat,
    user_id: Seq<char>,
    batch: Seq<Turn>,
    limit: nat,
)
    requires
        batch.len() >= 1,
        plain_roles(batch),
    ensures
        window(
            store.apply(now, clear_command(user_id)).0.apply(
                next,
                append_command(user_id, batch, limit),
            ).0,
            user_id,
        ) == latest(batch, limit),
        window(
            StoreState::empty().apply(next, append_command(user_id, batch, limit)).0,
            user_id,
        ) == latest(batch, limit),
{
    lemma_clear(store, now, next, user_id, limit);
    let cleared = store.apply(now, clear_command(user_id)).0;
    lemma_append(cleared, next, user_id, batch, limit);
    assert(window(cleared, user_id) + batch =~= batch);
    let fresh = StoreState::empty();
    lemma_append(fresh, next, user_id, batch, limit);
    assert(window(fresh, user_id) + batch =~= batch);
}

/// Keys keep apart: no window shares its key with a lock, no two message
/// identities share a lock key, and no two users share a window key.
pub proof fn lemma_keys_apart(
    message_id: Seq<char>,
    other_message_id: Seq<char>,
    user_id: Seq<char>,
    other_user_id: Seq<char>,
)
    ensures
        lock_key_of(message_id) != window_key_of(user_id),
        message_id != other_message_id ==> lock_key_of(message_id) != lock_key_of(
            other_message_id,
        ),
        user_id != other_user_id ==> window_key_of(user_id) != window_key_of(other_user_id),
{
    reveal_strlit("message_lock_");
    reveal_strlit("Conversations:");
    assert(lock_key_of(message_id)[0] == 'm');
    assert(window_key_of(user_id)[0] == 'C');
    lemma_lock_keys_apart(message_id, other_message_id);
    let prefix = "Conversations:"@;
    if window_key_of(user_id) == window_key_of(other_user_id) {
        assert(user_id =~= window_key_of(user_id).subrange(
            prefix.len() as int,
            window_key_of(user_id).len() as int,
        ));
        assert(other_user_id =~= window_key_of(other_user_id).subrange(
            prefix.len() as int,
            window_key_of(other_user_id).len() as int,
        ));
    }
}

/// The store without any key is orderly.
pub proof fn lemma_empty_orderly(limit: nat)
    ensures
        orderly(StoreState::empty(), limit),
{
}

/// Taking and releasing locks leaves every window as it is.
pub proof fn lemma_locks_keep_windows(
    store: StoreState,
    now: nat,
    message_id: Seq<char>,
    limit: nat,
)
    requires
        orderly(store, limit),
    ensures
        orderly(store.apply(now, acquire_command(message_id)).0, limit),
        orderly(store.apply(now, release_command(message_id)).0, limit),
        forall|user_id: Seq<char>|
            window(store.apply(now, acquire_command(message_id)).0, user_id) == #[trigger] window(
                store,
                user_id,
            ),
        forall|user_id: Seq<char>|
            window(store.apply(now, release_command(message_id)).0, user_id) == #[trigger] window(
                store,
                user_id,
            ),
{
    let taken = store.apply(now, acquire_command(message_id)).0;
    let freed = store.apply(now, release_command(message_id)).0;
    assert forall|user_id: Seq<char>| #[trigger] bounded(taken, user_id, limit) by {
        lemma_keys_apart(message_id, message_id, user_id, user_id);
        assert(bounded(store, user_id, limit));
    }
    assert forall|user_id: Seq<char>| #[trigger] bounded(freed, user_id, limit) by {
        lemma_keys_apart(message_id, message_id, user_id, user_id);
        assert(bounded(store, user_id, limit));
    }
    assert forall|user_id: Seq<char>|
        window(taken, user_id) == #[trigger] window(store, user_id) && window(freed, user_id)
            == window(store, user_id) by {
        lemma_keys_apart(message_id, message_id, user_id, user_id);
    }
}

/// An append keeps every window within its bound, whatever the batch, and
/// leaves the windows of all other users as they are.
pub proof fn lemma_append_keeps_windows(
    store: StoreState,
    now: nat,
    user_id: Seq<char>,
    batch: Seq<Turn>,
    limit: nat,
)
    requires
        orderly(store, limit),
    ensures
        orderly(store.apply(now, append_command(user_id, batch, limit)).0, limit),
        forall|other_id: Seq<char>|
            other_id != user_id ==> window(
                store.apply(now, append_command(user_id, batch, limit)).0,
                other_id,
            ) == #[trigger] window(store, other_id),
{
    let after = store.apply(now, append_command(user_id, batch, limit)).0;
    let key = window_key_of(user_id);
    assert forall|other_id: Seq<char>| #[trigger] bounded(after, other_id, limit) by {
        assert(bounded(store, other_id, limit));
        if other_id == user_id {
            if batch.len() > 0 {
                let pushed = encode_all(batch).reverse();
                let whole = pushed + store.list_at(key);
                assert(!store.marked(now, key));
                assert(after.list_at(key) == head(whole, limit));
                assert forall|i: int| 0 <= i < head(whole, limit).len() implies decode(
                    #[trigger] head(whole, limit)[i],
                ) is Some by {
                    assert(head(whole, limit)[i] == whole[i]);
                    if i < pushed.len() {
                        lemma_encode_decodes(batch[batch.len() - 1 - i]);
                    } else {
                        assert(whole[i] == store.list_at(key)[i - pushed.len()]);
                    }
                }
            }
        } else {
            lemma_keys_apart(user_id, user_id, user_id, other_id);
        }
    }
    assert forall|other_id: Seq<char>| other_id != user_id implies window(after, other_id)
        == #[trigger] window(store, other_id) by {
        lemma_keys_apart(user_id, user_id, user_id, other_id);
    }
}

/// A clear keeps every window within its bound and leaves the windows of
/// all other users as they are; a read changes nothing at all.
pub proof fn lemma_clear_keeps_windows(
    store: StoreState,
    now: nat,
    user_id: Seq<char>,
    limit: nat,
    count: nat,
)
    requires
        orderly(store, limit),
    ensures
        orderly(store.apply(now, clear_command(user_id)).0, limit),
        forall|other_id: Seq<char>|
            other_id != user_id ==> window(store.apply(now, clear_command(user_id)).0, other_id)
                == #[trigger] window(store, other_id),
        store.apply(now, read_command(user_id, count)).0 == store,
{
    let after = store.apply(now, clear_command(user_id)).0;
    assert forall|other_id: Seq<char>| #[trigger] bounded(after, other_id, limit) by {
        assert(bounded(store, other_id, limit));
        if other_id != user_id {
            lemma_keys_apart(user_id, user_id, user_id, other_id);
        }
    }
    assert forall|other_id: Seq<char>| other_id != user_id implies window(after, other_id)
        == #[trigger] window(store, other_id) by {
        lemma_keys_apart(user_id, user_id, user_id, other_id);
    }
}

} // verus!
