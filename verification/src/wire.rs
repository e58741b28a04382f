//! The form in which a command goes out on a connection of the `redis`
//! crate, and the reply that is read from what comes back.

use vstd::prelude::*;
use crate::command::{Command, CommandView, Reply, ReplyView};
use crate::error::StoreError;
use crate::text::{decimal, decimal_of};

verus! {

/// The bounds that select the first `count` entries of a list: positions 0
/// to `count - 1`, and for no entry the empty span from 1 to 0.
pub open spec fn span(count: nat) -> (nat, nat) {
    if count == 0 {
        (1, 0)
    } else {
        (0, (count - 1) as nat)
    }
}

/// The words of the push that `PushTrim` sends.
pub open spec fn push_words(key: Seq<char>, values: Seq<Seq<char>>) -> Seq<Seq<char>> {
    seq!["LPUSH"@, key] + values
}

/// The words of a command that names a key and a span.
pub open spec fn span_words(name: Seq<char>, key: Seq<char>, count: nat) -> Seq<Seq<char>> {
    seq![name, key, decimal_of(span(count).0), decimal_of(span(count).1)]
}

/// The store commands that a [`Command`] goes out as, each a sequence of
/// words that starts with the command's name. Numbers go out in decimal.
pub open spec fn wire(command: CommandView) -> Seq<Seq<Seq<char>>> {
    match command {
        CommandView::SetIfAbsent { key, value, ttl_secs } => seq![
            seq!["SET"@, key, value, "NX"@, "EX"@, decimal_of(ttl_secs)],
        ],
        CommandView::Delete { key } => seq![seq!["DEL"@, key]],
        CommandView::PushTrim { key, values, keep } => seq![
            push_words(key, values),
            span_words("LTRIM"@, key, keep),
        ],
        CommandView::Range { key, count } => seq![span_words("LRANGE"@, key, count)],
    }
}

/// Whether the store commands of a [`Command`] go out as one transaction.
pub open spec fn transactional(command: CommandView) -> bool {
    command is PushTrim
}

/// A command of the `redis` crate under construction.
#[verifier::external_type_specification]
#[verifier::external_body]
pub struct ExCmd(redis::Cmd);

/// A sequence of commands of the `redis` crate that go out together.
#[verifier::external_type_specification]
#[verifier::external_body]
pub struct ExPipeline(redis::Pipeline);

/// The arguments that a `redis::Cmd` holds, in the order in which they were
/// given, the command's name first.
pub uninterp spec fn cmd_words(cmd: redis::Cmd) -> Seq<Seq<char>>;

/// The commands that a `redis::Pipeline` holds, in the order in which they
/// were added.
pub uninterp spec fn pipeline_commands(pipeline: redis::Pipeline) -> Seq<Seq<Seq<char>>>;

/// Whether a `redis::Pipeline` is in atomic mode, in which it goes out
/// enclosed in `MULTI` and `EXEC`.
pub uninterp spec fn pipeline_atomic(pipeline: redis::Pipeline) -> bool;

/// `redis::cmd`: a new command whose only argument so far is its name.
#[verifier::external_body]
fn cmd_named(name: &str) -> (cmd: redis::Cmd)
    ensures
        cmd_words(cmd) == seq![name@],
{
    redis::cmd(name)
}

/// `redis::Cmd::arg` with a string: appends it as one argument.
#[verifier::external_body]
fn cmd_arg(cmd: &mut redis::Cmd, text: &str)
    ensures
        cmd_words(*final(cmd)) == cmd_words(*old(cmd)).push(text@),
{
    cmd.arg(text);
}

/// `redis::pipe`: an empty pipeline, not in atomic mode.
#[verifier::external_body]
fn pipeline_new() -> (pipeline: redis::Pipeline)
    ensures
        pipeline_commands(pipeline) == Seq::<Seq<Seq<char>>>::empty(),
        !pipeline_atomic(pipeline),
{
    redis::pipe()
}

/// `redis::Pipeline::atomic`: switches atomic mode on and leaves the
/// commands as they are.
#[verifier::external_body]
fn pipeline_set_atomic(pipeline: &mut redis::Pipeline)
    ensures
        pipeline_commands(*final(pipeline)) == pipeline_commands(*old(pipeline)),
        pipeline_atomic(*final(pipeline)),
{
    pipeline.atomic();
}

/// `redis::Pipeline::add_command`: appends one command and leaves the mode
/// as it is.
#[verifier::external_body]
fn pipeline_add(pipeline: &mut redis::Pipeline, cmd: redis::Cmd)
    ensures
        pipeline_commands(*final(pipeline)) == pipeline_commands(*old(pipeline)).push(
            cmd_words(cmd),
        ),
        pipeline_atomic(*final(pipeline)) == pipeline_atomic(*old(pipeline)),
{
    pipeline.add_command(cmd);
}

/// A command that names a key and the span of the first `count` entries.
fn span_cmd(name: &str, key: &str, count: u32) -> (cmd: redis::Cmd)
    ensures
        cmd_words(cmd) == span_words(name@, key@, count as nat),
{
    let mut cmd = cmd_named(name);
    cmd_arg(&mut cmd, key);
    if count == 0 {
        cmd_arg(&mut cmd, decimal(1).as_str());
        cmd_arg(&mut cmd, decimal(0).as_str());
    } else {
        cmd_arg(&mut cmd, decimal(0).as_str());
        cmd_arg(&mut cmd, decimal(count - 1).as_str());
    }
    assert(cmd_words(cmd) =~= span_words(name@, key@, count as nat));
    cmd
}

/// The push of `values` onto the head of the list at `key`.
fn push_cmd(key: &str, values: &Vec<String>) -> (cmd: redis::Cmd)
    ensures
        cmd_words(cmd) == push_words(key@, values.deep_view()),
{
    let mut cmd = cmd_named("LPUSH");
    cmd_arg(&mut cmd, key);
    let ghost texts = values.deep_view();
    let mut done: usize = 0;
    assert(push_words(key@, texts.take(0)) =~= seq!["LPUSH"@, key@]);
    while done < values.len()
        invariant
            done <= values.len(),
            texts == values.deep_view(),
            cmd_words(cmd) == push_words(key@, texts.take(done as int)),
        decreases values.len() - done,
    {
        cmd_arg(&mut cmd, values[done].as_str());
        proof {
            let before = texts.take(done as int);
            let after = texts.take(done + 1);
            assert(after =~= before.push(values[done as int]@));
            assert(push_words(key@, after) =~= push_words(key@, before).push(values[done as int]@));
        }
        done += 1;
    }
    assert(texts.take(done as int) =~= texts);
    cmd
}

impl Command {
    /// The command as a `redis::Pipeline`, ready to be sent: it holds the
    /// store commands of [`wire`], and is atomic where they form a
    /// transaction.
    pub fn to_redis(&self) -> (pipeline: redis::Pipeline)
        ensures
            pipeline_commands(pipeline) == wire(self@),
            pipeline_atomic(pipeline) == transactional(self@),
    {
        let mut pipeline = pipeline_new();
        match self {
            Command::SetIfAbsent { key, value, ttl_secs } => {
                let mut cmd = cmd_named("SET");
                cmd_arg(&mut cmd, key.as_str());
                cmd_arg(&mut cmd, value.as_str());
                cmd_arg(&mut cmd, "NX");
                cmd_arg(&mut cmd, "EX");
                cmd_arg(&mut cmd, decimal(*ttl_secs).as_str());
                assert(cmd_words(cmd) =~= wire(self@)[0]);
                pipeline_add(&mut pipeline, cmd);
            },
            Command::Delete { key } => {
                let mut cmd = cmd_named("DEL");
                cmd_arg(&mut cmd, key.as_str());
                assert(cmd_words(cmd) =~= wire(self@)[0]);
                pipeline_add(&mut pipeline, cmd);
            },
            Command::PushTrim { key, values, keep } => {
                pipeline_set_atomic(&mut pipeline);
                pipeline_add(&mut pipeline, push_cmd(key.as_str(), values));
                pipeline_add(&mut pipeline, span_cmd("LTRIM", key.as_str(), *keep));
            },
            Command::Range { key, count } => {
                pipeline_add(&mut pipeline, span_cmd("LRANGE", key.as_str(), *count));
            },
        }
        assert(pipeline_commands(pipeline) =~= wire(self@));
        pipeline
    }
}

/// What a connection of the `redis` crate hands back for a pipeline.
#[verifier::external_type_specification]
#[verifier::external_body]
pub struct ExValue(redis::Value);

/// The error of the `redis` crate.
#[verifier::external_type_specification]
#[verifier::external_body]
pub struct ExRedisError(redis::RedisError);

/// The flag that `redis::from_redis_value` reads from the answer to a
/// pipeline of one command, where it can read one.
pub uninterp spec fn flag_in(value: redis::Value) -> Option<bool>;

/// The list of strings that `redis::from_redis_value` reads from the
/// answer to a pipeline of one command, where it can read one.
pub uninterp spec fn items_in(value: redis::Value) -> Option<Seq<Seq<char>>>;

/// Whether `redis::RedisError::is_io_error` tells that an error comes from
/// the connection and not from the store.
pub uninterp spec fn io_failure(error: redis::RedisError) -> bool;

/// `redis::from_redis_value` for the answer to a pipeline of one command
/// that reports a flag: the flag that it reads, and nothing where it fails.
#[verifier::external_body]
fn value_flag(value: &redis::Value) -> (flag: Option<bool>)
    ensures
        flag == flag_in(*value),
{
    redis::from_redis_value::<(bool,)>(value).ok().map(|answer| answer.0)
}

/// `redis::from_redis_value` for the answer to a pipeline of one command
/// that reports a list of strings: the list that it reads, and nothing
/// where it fails.
#[verifier::external_body]
fn value_items(value: &redis::Value) -> (items: Option<Vec<String>>)
    ensures
        match items {
            Some(list) => items_in(*value) == Some(list.deep_view()),
            None => items_in(*value) is None,
        },
{
    redis::from_redis_value::<(Vec<String>,)>(value).ok().map(|answer| answer.0)
}

/// `redis::RedisError::is_io_error`: whether the error comes from the
/// connection and not from the store.
#[verifier::external_body]
fn error_is_io(error: &redis::RedisError) -> (io: bool)
    ensures
        io == io_failure(*error),
{
    error.is_io_error()
}

/// The reply for a flag that was read from an answer, or could not be read.
pub fn flag_reply(flag: Option<bool>) -> (reply: Reply)
    ensures
        reply@ == match flag {
            Some(set) => ReplyView::Flag(set),
            None => ReplyView::Failed(StoreError::Decode),
        },
{
    match flag {
        Some(set) => Reply::Flag(set),
        None => Reply::Failed(StoreError::Decode),
    }
}

/// The reply for a list that was read from an answer, or could not be read.
pub fn items_reply(items: Option<Vec<String>>) -> (reply: Reply)
    ensures
        reply@ == match items {
            Some(list) => ReplyView::Items(list.deep_view()),
            None => ReplyView::Failed(StoreError::Decode),
        },
{
    match items {
        Some(list) => Reply::Items(list),
        None => Reply::Failed(StoreError::Decode),
    }
}

/// The failure for an error: the store is unavailable where the connection
/// failed, and has rejected the command otherwise.
pub fn failure_for(connection_failed: bool) -> (failure: StoreError)
    ensures
        failure == if connection_failed {
            StoreError::Unavailable
        } else {
            StoreError::Rejected
        },
{
    if connection_failed {
        StoreError::Unavailable
    } else {
        StoreError::Rejected
    }
}

/// The reply to `command` that is read from what a connection handed back
/// for its pipeline.
///
/// - A conditional write answers with a flag and a read with a list of
///   strings; an answer from which none can be read is a decoding failure.
/// - The other commands have nothing to report, whatever the answer is.
/// - An error of the connection means that the store is unavailable, any
///   other error that the store has rejected the command.
pub open spec fn reply_read(
    command: CommandView,
    outcome: Result<redis::Value, redis::RedisError>,
) -> ReplyView {
    match outcome {
        Ok(value) => match command {
            CommandView::SetIfAbsent { .. } => match flag_in(value) {
                Some(set) => ReplyView::Flag(set),
                None => ReplyView::Failed(StoreError::Decode),
            },
            CommandView::Range { .. } => match items_in(value) {
                Some(list) => ReplyView::Items(list),
                None => ReplyView::Failed(StoreError::Decode),
            },
            _ => ReplyView::Done,
        },
        Err(error) => ReplyView::Failed(
            if io_failure(error) {
                StoreError::Unavailable
            } else {
                StoreError::Rejected
            },
        ),
    }
}

/// Reads the reply to `command` from what the connection handed back for
/// its pipeline: see [`reply_read`].
pub fn reply_of(
    command: &Command,
    outcome: &Result<redis::Value, redis::RedisError>,
) -> (reply: Reply)
    ensures
        reply@ == reply_read(command@, *outcome),
{
    match outcome {
        Ok(value) => match command {
            Command::SetIfAbsent { .. } => flag_reply(value_flag(value)),
            Command::Range { .. } => items_reply(value_items(value)),
            _ => Reply::Done,
        },
        Err(error) => Reply::Failed(failure_for(error_is_io(error))),
    }
}

} // verus!
