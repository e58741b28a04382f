//! The handling of one inbound message, as a state machine.
//!
//! The processor decides; its caller acts. The caller hands it an event, gets
//! an action back, carries the action out against the store, the completion
//! service or the chat platform, and comes back with what happened. Between
//! a granted acquire and the release the processor holds the lock, and only
//! then does it touch the window or ask for a completion; whatever happens
//! in between, it releases the lock before it finishes.

use vstd::prelude::*;
use vstd::string::*;
use vstd::utf8::encode_utf8;
use crate::command::{acknowledged, Command, CommandView, Reply, ReplyView};
use crate::lock::{acquire_command, acquire_lock, granted, lock_granted, release_command, release_lock};
use crate::message::{Message, Turn, DELIMITER};
use crate::text::{cleaned, remove_mentions};
use crate::window::{add_conversation, append_command, conversations_in, get_conversations};
use crate::window::{bounded, latest, plain_roles, read_command, turns_in, window};
use crate::window_laws::lemma_append;
use crate::store::StoreState;

verus! {

/// The turn that opens a conversation for a user without a window.
pub const PRIMER: &'static str = "You are a extremely helpful assistant in a Discord server.";

/// The answer for a completion that came back without any text.
pub const NO_ANSWER: &'static str =
    "I'm sorry, I couldn't generate a response. Please check the length of your question.";

/// The longest prompt that is passed on, in bytes.
pub const MAX_PROMPT_BYTES: usize = 2048;

/// Where the handling of a message stands.
#[derive(Debug, Clone, Copy, PartialEq, Eq, Structural)]
pub enum Stage {
    /// Nothing was done yet.
    Idle,
    /// The acquire is out.
    Locking,
    /// The lock is held and the read of the window is out.
    Reading,
    /// The lock is held and the sender is being told that the prompt is too
    /// long.
    Refusing,
    /// The lock is held and the completion is being asked for.
    Completing,
    /// The lock is held and the append of the new turns is out.
    Appending,
    /// The release is out.
    Releasing,
    /// Nothing is left to do.
    Finished,
}

/// How a request for a completion ended.
#[derive(Debug, PartialEq, Eq)]
pub enum Completion {
    /// The service answered with this text.
    Text(String),
    /// The service answered without a text.
    Empty,
    /// The service could not be asked, or did not answer.
    Failed,
}

/// What the caller reports to the processor.
#[derive(Debug, PartialEq, Eq)]
pub enum Event {
    /// The message has arrived.
    Begin,
    /// The store's reply to the command of the last action.
    Store(Reply),
    /// The outcome of the completion that the last action asked for.
    Completion(Completion),
    /// The text of the last action was sent, or could not be sent.
    Delivered,
}

/// What the processor asks its caller to do next.
#[derive(Debug, PartialEq, Eq)]
pub enum Action {
    /// Send the command to the store and report its reply.
    Store(Command),
    /// Ask for a completion of these turns and report the outcome.
    Complete(Vec<Message>),
    /// Say the text in the channel of the message and report back.
    Say(String),
    /// Answer the message with the text; nothing is left to do after that.
    Reply(String),
    /// Nothing is left to do.
    Finish,
}

/// The mathematical value of a [`Completion`].
pub enum CompletionView {
    Text(Seq<char>),
    Empty,
    Failed,
}

/// The mathematical value of an [`Event`].
pub enum EventView {
    Begin,
    Store(ReplyView),
    Completion(CompletionView),
    Delivered,
}

/// The mathematical value of an [`Action`].
pub enum ActionView {
    Store(CommandView),
    Complete(Seq<Turn>),
    Say(Seq<char>),
    Reply(Seq<char>),
    Finish,
}

impl View for Completion {
    type V = CompletionView;

    open spec fn view(&self) -> CompletionView {
        match *self {
            Completion::Text(text) => CompletionView::Text(text@),
            Completion::Empty => CompletionView::Empty,
            Completion::Failed => CompletionView::Failed,
        }
    }
}

impl View for Event {
    type V = EventView;

    open spec fn view(&self) -> EventView {
        match *self {
            Event::Begin => EventView::Begin,
            Event::Store(reply) => EventView::Store(reply@),
            Event::Completion(completion) => EventView::Completion(completion@),
            Event::Delivered => EventView::Delivered,
        }
    }
}

impl View for Action {
    type V = ActionView;

    open spec fn view(&self) -> ActionView {
        match *self {
            Action::Store(command) => ActionView::Store(command@),
            Action::Complete(turns) => ActionView::Complete(turns.deep_view()),
            Action::Say(text) => ActionView::Say(text@),
            Action::Reply(text) => ActionView::Reply(text@),
            Action::Finish => ActionView::Finish,
        }
    }
}

/// The mathematical value of a [`MessageProcessor`].
pub struct ProcessorState {
    pub stage: Stage,
    /// The identity of the message, by which it is locked.
    pub message_id: Seq<char>,
    /// The identity of the sender, by which the window is found.
    pub user_id: Seq<char>,
    /// How the sender is addressed in the channel.
    pub mention: Seq<char>,
    /// Whether the message mentions the relay.
    pub mentioned: bool,
    /// The text of the message, cleaned.
    pub prompt: Seq<char>,
    /// The number of turns that the window keeps.
    pub limit: nat,
    /// The turns that this exchange has added so far.
    pub fresh: Seq<Turn>,
    /// The answer that goes out once the lock is released.
    pub answer: Option<Seq<char>>,
}

/// A turn of the user.
pub open spec fn user_turn(content: Seq<char>) -> Turn {
    Turn { role: "user"@, content }
}

/// A turn of the assistant.
pub open spec fn assistant_turn(content: Seq<char>) -> Turn {
    Turn { role: "assistant"@, content }
}

/// Whether a prompt is too long to be passed on.
pub open spec fn too_long(prompt: Seq<char>) -> bool {
    encode_utf8(prompt).len() > MAX_PROMPT_BYTES
}

/// What the sender is told about a prompt that is too long.
pub open spec fn refusal(mention: Seq<char>) -> Seq<char> {
    "Error: "@ + mention + ", your prompt length exceeds the maximum of 2048 tokens"@
}

/// The turns with which an exchange starts: the prompt as a turn of the
/// user, behind the primer where the user has no window yet.
pub open spec fn opening(window: Seq<Turn>, prompt: Seq<char>) -> Seq<Turn> {
    if window.len() == 0 {
        seq![user_turn(PRIMER@), user_turn(prompt)]
    } else {
        seq![user_turn(prompt)]
    }
}

/// The turns that a reply to the read carries; none where the read failed.
pub open spec fn window_in(reply: ReplyView) -> Seq<Turn> {
    match turns_in(reply) {
        Ok(turns) => turns,
        Err(_) => Seq::empty(),
    }
}

/// The text of a completion that ended with an answer.
pub open spec fn answer_of(completion: CompletionView) -> Option<Seq<char>> {
    match completion {
        CompletionView::Text(text) => Some(text),
        CompletionView::Empty => Some(NO_ANSWER@),
        CompletionView::Failed => None,
    }
}

/// Whether the lock is held in a stage.
pub open spec fn holding(stage: Stage) -> bool {
    stage is Reading || stage is Refusing || stage is Completing || stage is Appending
}

/// The number of steps that are left at most in a stage.
pub open spec fn steps_left(stage: Stage) -> nat {
    match stage {
        Stage::Idle => 6,
        Stage::Locking => 5,
        Stage::Reading => 4,
        Stage::Refusing => 2,
        Stage::Completing => 3,
        Stage::Appending => 2,
        Stage::Releasing => 1,
        Stage::Finished => 0,
    }
}

impl ProcessorState {
    /// The state in another stage.
    pub open spec fn at(self, stage: Stage) -> ProcessorState {
        ProcessorState { stage, ..self }
    }

    /// Giving the lock back without an answer.
    pub open spec fn release(self) -> (ProcessorState, ActionView) {
        (
            ProcessorState { stage: Stage::Releasing, answer: None, ..self },
            ActionView::Store(release_command(self.message_id)),
        )
    }

    /// The step that the processor takes on an event: the state after it and
    /// the action that it asks for.
    ///
    /// - A message that does not mention the relay is dropped. For one that
    ///   does, the lock is asked for; where it is not granted, for whatever
    ///   reason, the message is dropped in silence.
    /// - With the lock the window is read; a failed read counts as an empty
    ///   window. A prompt that is too long is refused towards the sender.
    ///   Else the completion is asked for the window followed by the
    ///   opening turns.
    /// - An answer, or the stock answer for a completion without text, is
    ///   appended to the window together with the opening turns.
    /// - Then the lock is released. The answer goes out only after an
    ///   append that did not fail; the outcome of the release does not
    ///   matter.
    /// - An event that does not fit the stage ends the handling: by a
    ///   release where the lock is held.
    pub open spec fn next(self, event: EventView) -> (ProcessorState, ActionView) {
        match self.stage {
            Stage::Idle => {
                if event is Begin && self.mentioned {
                    (
                        self.at(Stage::Locking),
                        ActionView::Store(acquire_command(self.message_id)),
                    )
                } else {
                    (self.at(Stage::Finished), ActionView::Finish)
                }
            },
            Stage::Locking => {
                if event is Store && granted(event->Store_0) {
                    (
                        self.at(Stage::Reading),
                        ActionView::Store(read_command(self.user_id, self.limit)),
                    )
                } else {
                    (self.at(Stage::Finished), ActionView::Finish)
                }
            },
            Stage::Reading => {
                if !(event is Store) {
                    self.release()
                } else if too_long(self.prompt) {
                    (self.at(Stage::Refusing), ActionView::Say(refusal(self.mention)))
                } else {
                    let window = window_in(event->Store_0);
                    let fresh = opening(window, self.prompt);
                    (
                        ProcessorState { stage: Stage::Completing, fresh, ..self },
                        ActionView::Complete(window + fresh),
                    )
                }
            },
            Stage::Refusing => self.release(),
            Stage::Completing => {
                if event is Completion && answer_of(event->Completion_0) is Some {
                    let answer = answer_of(event->Completion_0)->0;
                    let fresh = self.fresh.push(assistant_turn(answer));
                    (
                        ProcessorState {
                            stage: Stage::Appending,
                            fresh,
                            answer: Some(answer),
                            ..self
                        },
                        ActionView::Store(append_command(self.user_id, fresh, self.limit)),
                    )
                } else {
                    self.release()
                }
            },
            Stage::Appending => {
                if event is Store && !(event->Store_0 is Failed) {
                    (
                        self.at(Stage::Releasing),
                        ActionView::Store(release_command(self.message_id)),
                    )
                } else {
                    self.release()
                }
            },
            Stage::Releasing => {
                let finished = ProcessorState { stage: Stage::Finished, answer: None, ..self };
                match self.answer {
                    Some(text) => (finished, ActionView::Reply(text)),
                    None => (finished, ActionView::Finish),
                }
            },
            Stage::Finished => (self, ActionView::Finish),
        }
    }

    /// What holds of a processor in every stage: the turns of the exchange
    /// have plain roles, and an answer waits only while the append or the
    /// release is out.
    pub open spec fn consistent(self) -> bool {
        &&& plain_roles(self.fresh)
        &&& self.answer is Some ==> self.stage is Appending || self.stage is Releasing
    }
}

/// Lock discipline. The stages in which the lock is held are entered only
/// by a granted acquire, and left only by a release of the same lock.
/// Commands on the window and requests for a completion go out only while
/// the lock is held.
pub proof fn lemma_lock_discipline(state: ProcessorState, event: EventView)
    ensures
        holding(state.next(event).0.stage) && !holding(state.stage) ==> state.stage is Locking
            && event is Store && granted(event->Store_0),
        holding(state.stage) && !holding(state.next(event).0.stage) ==> state.next(event).1
            == ActionView::Store(release_command(state.message_id)),
        state.next(event).1 is Complete ==> holding(state.next(event).0.stage),
        state.next(event).1 is Store && (state.next(event).1->Store_0 is PushTrim || state.next(
            event,
        ).1->Store_0 is Range) ==> holding(state.next(event).0.stage),
        state.next(event).1 is Finish || state.next(event).1 is Reply ==> !holding(state.stage)
            && state.next(event).0.stage is Finished,
{
}

/// The roles that the processor gives to turns hold no delimiter.
pub proof fn lemma_roles_plain()
    ensures
        !"user"@.contains(DELIMITER),
        !"assistant"@.contains(DELIMITER),
{
    reveal_strlit("user");
    reveal_strlit("assistant");
    if "user"@.contains(DELIMITER) {
        let at = choose|at: int| 0 <= at < "user"@.len() && "user"@[at] == DELIMITER;
        assert("user"@[at] == DELIMITER);
    }
    if "assistant"@.contains(DELIMITER) {
        let at = choose|at: int| 0 <= at < "assistant"@.len() && "assistant"@[at] == DELIMITER;
        assert("assistant"@[at] == DELIMITER);
    }
}

/// The answer goes out only after the append of the exchange did not fail:
/// an answer is kept for the release only by such a reply, and the reply to
/// the message is that answer. The turns of the exchange keep plain roles.
pub proof fn lemma_answer_after_append(state: ProcessorState, event: EventView)
    requires
        state.consistent(),
    ensures
        state.next(event).0.consistent(),
        state.next(event).0.stage is Releasing && state.next(event).0.answer is Some
            ==> state.stage is Appending && event is Store && !(event->Store_0 is Failed),
        state.next(event).1 is Reply ==> state.stage is Releasing && state.answer == Some(
            state.next(event).1->Reply_0,
        ),
{
    lemma_roles_plain();
    let after = state.next(event).0;
    assert forall|i: int| 0 <= i < after.fresh.len() implies !(#[trigger] after.fresh[i]).role.contains(
        DELIMITER,
    ) by {
        if i < state.fresh.len() {
            assert(!state.fresh[i].role.contains(DELIMITER));
        }
    }
}

/// What an exchange leaves behind: the append that follows an answer is
/// accepted by the store, and the window is then the old window followed by
/// the turns of the exchange, cut down to its latest turns.
pub proof fn lemma_exchange_recorded(
    state: ProcessorState,
    event: EventView,
    store: StoreState,
    now: nat,
)
    requires
        state.consistent(),
        state.stage is Completing,
        event is Completion,
        answer_of(event->Completion_0) is Some,
        bounded(store, state.user_id, state.limit),
    ensures
        state.next(event).1 == ActionView::Store(
            append_command(state.user_id, state.next(event).0.fresh, state.limit),
        ),
        store.apply(now, state.next(event).1->Store_0).1 == ReplyView::Done,
        window(store.apply(now, state.next(event).1->Store_0).0, state.user_id) == latest(
            window(store, state.user_id) + state.next(event).0.fresh,
            state.limit,
        ),
{
    lemma_answer_after_append(state, event);
    lemma_append(store, now, state.user_id, state.next(event).0.fresh, state.limit);
}

/// Every step but the last brings the end nearer, so every message is dealt
/// with in six steps at most; a finished processor stays finished. What a
/// processor was made for never changes.
pub proof fn lemma_progress(state: ProcessorState, event: EventView)
    ensures
        !(state.stage is Finished) ==> steps_left(state.next(event).0.stage) < steps_left(
            state.stage,
        ),
        state.stage is Finished ==> state.next(event) == (state, ActionView::Finish),
        state.next(event).0.message_id == state.message_id,
        state.next(event).0.user_id == state.user_id,
        state.next(event).0.mention == state.mention,
        state.next(event).0.mentioned == state.mentioned,
        state.next(event).0.prompt == state.prompt,
        state.next(event).0.limit == state.limit,
{
}

/// The handling of one inbound message.
pub struct MessageProcessor {
    stage: Stage,
    message_id: String,
    user_id: String,
    mention: String,
    mentioned: bool,
    prompt: String,
    limit: u32,
    fresh: Vec<Message>,
    answer: Option<String>,
}

impl View for MessageProcessor {
    type V = ProcessorState;

    closed spec fn view(&self) -> ProcessorState {
        ProcessorState {
            stage: self.stage,
            message_id: self.message_id@,
            user_id: self.user_id@,
            mention: self.mention@,
            mentioned: self.mentioned,
            prompt: self.prompt@,
            limit: self.limit as nat,
            fresh: self.fresh.deep_view(),
            answer: match self.answer {
                Some(text) => Some(text@),
                None => None,
            },
        }
    }
}

/// A turn with the given role.
fn turn(role: &str, content: &str) -> (message: Message)
    ensures
        message@ == (Turn { role: role@, content: content@ }),
{
    Message { role: String::from_str(role), content: String::from_str(content) }
}

/// The turns of `first` followed by those of `second`.
fn joined(first: &Vec<Message>, second: &Vec<Message>) -> (all: Vec<Message>)
    ensures
        all.deep_view() == first.deep_view() + second.deep_view(),
{
    let ghost whole = first.deep_view() + second.deep_view();
    let mut all: Vec<Message> = Vec::new();
    let mut at: usize = 0;
    while at < first.len()
        invariant
            at <= first.len(),
            whole == first.deep_view() + second.deep_view(),
            all.deep_view() == whole.take(at as int),
        decreases first.len() - at,
    {
        let ghost before = all.deep_view();
        all.push(first[at].clone());
        assert(all.deep_view() =~= before.push(first[at as int]@));
        assert(whole.take(at + 1) =~= whole.take(at as int).push(first[at as int]@));
        at += 1;
    }
    let mut at: usize = 0;
    while at < second.len()
        invariant
            at <= second.len(),
            whole == first.deep_view() + second.deep_view(),
            all.deep_view() == whole.take(first.len() + at),
        decreases second.len() - at,
    {
        let ghost before = all.deep_view();
        all.push(second[at].clone());
        assert(all.deep_view() =~= before.push(second[at as int]@));
        assert(whole.take(first.len() + at + 1) =~= whole.take(first.len() + at).push(
            second[at as int]@,
        ));
        at += 1;
    }
    assert(whole.take(whole.len() as int) =~= whole);
    all
}

impl MessageProcessor {
    /// A processor for one message: `message_id` names the message and
    /// `user_id` its sender, whom `mention` addresses in the channel;
    /// `mentioned` tells whether the message mentions the relay, `content` is
    /// its text and `limit` the number of turns that the window keeps. The
    /// prompt is the text without mentions, trimmed.
    pub fn new(
        message_id: &str,
        user_id: &str,
        mention: &str,
        mentioned: bool,
        content: &str,
        limit: u32,
    ) -> (processor: MessageProcessor)
        ensures
            processor@ == (ProcessorState {
                stage: Stage::Idle,
                message_id: message_id@,
                user_id: user_id@,
                mention: mention@,
                mentioned,
                prompt: cleaned(content@),
                limit: limit as nat,
                fresh: Seq::empty(),
                answer: None,
            }),
            processor@.consistent(),
    {
        let processor = MessageProcessor {
            stage: Stage::Idle,
            message_id: String::from_str(message_id),
            user_id: String::from_str(user_id),
            mention: String::from_str(mention),
            mentioned,
            prompt: remove_mentions(String::from_str(content)),
            limit,
            fresh: Vec::new(),
            answer: None,
        };
        assert(processor@.fresh =~= Seq::empty());
        processor
    }

    /// Where the handling stands.
    pub fn stage(&self) -> (stage: Stage)
        ensures
            stage == self@.stage,
    {
        self.stage
    }

    /// Whether nothing is left to do.
    pub fn is_finished(&self) -> (done: bool)
        ensures
            done == (self@.stage is Finished),
    {
        match self.stage {
            Stage::Finished => true,
            _ => false,
        }
    }

    /// The prompt that is passed on: the text of the message, cleaned.
    pub fn prompt(&self) -> (prompt: &str)
        ensures
            prompt@ == self@.prompt,
    {
        self.prompt.as_str()
    }

    /// The command that tries to take the lock for this message.
    pub fn acquire_lock(&self) -> (command: Command)
        ensures
            command@ == acquire_command(self@.message_id),
    {
        acquire_lock(self.message_id.as_str())
    }

    /// The command that gives the lock for this message back.
    pub fn release_lock(&self) -> (command: Command)
        ensures
            command@ == release_command(self@.message_id),
    {
        release_lock(self.message_id.as_str())
    }

    /// Ends the handling by giving the lock back, without an answer.
    fn release(&mut self) -> (action: Action)
        ensures
            (final(self)@, action@) == old(self)@.release(),
    {
        self.stage = Stage::Releasing;
        self.answer = None;
        Action::Store(self.release_lock())
    }

    /// Ends the handling without anything more to do.
    fn finish(&mut self) -> (action: Action)
        ensures
            final(self)@ == old(self)@.at(Stage::Finished),
            action@ == ActionView::Finish,
    {
        self.stage = Stage::Finished;
        Action::Finish
    }

    /// What the sender is told about a prompt that is too long.
    fn refusal_text(&self) -> (text: String)
        ensures
            text@ == refusal(self@.mention),
    {
        let mut text = String::from_str("Error: ");
        text.append(self.mention.as_str());
        text.append(", your prompt length exceeds the maximum of 2048 tokens");
        text
    }

    /// Takes one step: see [`ProcessorState::next`].
    pub fn handle_message(&mut self, event: Event) -> (action: Action)
        ensures
            (final(self)@, action@) == old(self)@.next(event@),
    {
        match self.stage {
            Stage::Idle => {
                match event {
                    Event::Begin => {
                        if self.mentioned {
                            self.stage = Stage::Locking;
                            Action::Store(self.acquire_lock())
                        } else {
                            self.finish()
                        }
                    },
                    _ => self.finish(),
                }
            },
            Stage::Locking => {
                match event {
                    Event::Store(reply) => {
                        if lock_granted(&reply) {
                            self.stage = Stage::Reading;
                            Action::Store(get_conversations(self.user_id.as_str(), self.limit))
                        } else {
                            self.finish()
                        }
                    },
                    _ => self.finish(),
                }
            },
            Stage::Reading => {
                match event {
                    Event::Store(reply) => {
                        if self.prompt.as_str().as_bytes().len() > MAX_PROMPT_BYTES {
                            self.stage = Stage::Refusing;
                            Action::Say(self.refusal_text())
                        } else {
                            let window = match conversations_in(&reply) {
                                Ok(turns) => turns,
                                Err(_) => Vec::new(),
                            };
                            assert(window.deep_view() =~= window_in(reply@));
                            let mut fresh: Vec<Message> = Vec::new();
                            if window.len() == 0 {
                                fresh.push(turn("user", PRIMER));
                            }
                            fresh.push(turn("user", self.prompt.as_str()));
                            assert(fresh.deep_view() =~= opening(window_in(reply@), self@.prompt));
                            let context = joined(&window, &fresh);
                            self.stage = Stage::Completing;
                            self.fresh = fresh;
                            Action::Complete(context)
                        }
                    },
                    _ => self.release(),
                }
            },
            Stage::Refusing => self.release(),
            Stage::Completing => {
                let answer = match event {
                    Event::Completion(Completion::Text(text)) => text,
                    Event::Completion(Completion::Empty) => String::from_str(NO_ANSWER),
                    _ => {
                        return self.release();
                    },
                };
                let ghost before = self.fresh.deep_view();
                self.fresh.push(turn("assistant", answer.as_str()));
                assert(self.fresh.deep_view() =~= before.push(assistant_turn(answer@)));
                self.stage = Stage::Appending;
                self.answer = Some(answer);
                Action::Store(add_conversation(self.user_id.as_str(), &self.fresh, self.limit))
            },
            Stage::Appending => {
                match event {
                    Event::Store(reply) => {
                        match acknowledged(&reply) {
                            Ok(()) => {
                                self.stage = Stage::Releasing;
                                Action::Store(self.release_lock())
                            },
                            Err(_) => self.release(),
                        }
                    },
                    _ => self.release(),
                }
            },
            Stage::Releasing => {
                self.stage = Stage::Finished;
                match self.answer.take() {
                    Some(text) => Action::Reply(text),
                    None => Action::Finish,
                }
            },
            Stage::Finished => Action::Finish,
        }
    }
}

} // verus!
