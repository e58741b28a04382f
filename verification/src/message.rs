//! One conversation turn and its encoding as a single stored string.
//!
//! A turn is stored as its role, the delimiter `:` and its content. Decoding
//! splits at the first delimiter, so the content may hold any character; the
//! role must hold no delimiter for the turn to come back unchanged.

use vstd::prelude::*;
use crate::error::StoreError;
use crate::text::chars_of;

verus! {

/// The character that separates role from content in a stored turn.
pub const DELIMITER: char = ':';

/// One utterance: who spoke, and what was said.
#[derive(Debug, PartialEq, Eq)]
pub struct Message {
    pub role: String,
    pub content: String,
}

/// The mathematical value of a [`Message`].
pub struct Turn {
    pub role: Seq<char>,
    pub content: Seq<char>,
}

impl View for Message {
    type V = Turn;

    open spec fn view(&self) -> Turn {
        Turn { role: self.role@, content: self.content@ }
    }
}

impl DeepView for Message {
    type V = Turn;

    open spec fn deep_view(&self) -> Turn {
        self@
    }
}

/// The stored form of a turn.
pub open spec fn encode(turn: Turn) -> Seq<char> {
    turn.role + seq![DELIMITER] + turn.content
}

/// `at` is the position of the first delimiter of `text`.
pub open spec fn is_split_point(text: Seq<char>, at: int) -> bool {
    &&& 0 <= at < text.len()
    &&& text[at] == DELIMITER
    &&& forall|j: int| 0 <= j < at ==> text[j] != DELIMITER
}

/// The position of the first delimiter of `text`, where it has one.
pub open spec fn split_point(text: Seq<char>) -> Option<int> {
    if exists|at: int| is_split_point(text, at) {
        Some(choose|at: int| is_split_point(text, at))
    } else {
        None
    }
}

/// The turn that a stored string stands for: what precedes its first
/// delimiter is the role, what follows is the content. A string without a
/// delimiter stands for no turn.
pub open spec fn decode(text: Seq<char>) -> Option<Turn> {
    match split_point(text) {
        Some(at) => Some(
            Turn { role: text.subrange(0, at), content: text.subrange(at + 1, text.len() as int) },
        ),
        None => None,
    }
}

/// A string has at most one first delimiter.
pub proof fn lemma_split_point_unique(text: Seq<char>, at: int)
    requires
        is_split_point(text, at),
    ensures
        split_point(text) == Some(at),
{
    let other = choose|other: int| is_split_point(text, other);
    assert(is_split_point(text, other));
    if other < at {
        assert(text[other] != DELIMITER);
    } else if at < other {
        assert(text[at] != DELIMITER);
    }
}

/// A string without a delimiter has no split point.
pub proof fn lemma_split_point_none(text: Seq<char>)
    requires
        forall|j: int| 0 <= j < text.len() ==> text[j] != DELIMITER,
    ensures
        split_point(text) is None,
{
}

/// Round trip: a turn whose role holds no delimiter decodes from its stored
/// form to itself, whatever its content holds.
pub proof fn lemma_decode_encode(turn: Turn)
    requires
        !turn.role.contains(DELIMITER),
    ensures
        decode(encode(turn)) == Some(turn),
{
    let text = encode(turn);
    let at = turn.role.len() as int;
    assert forall|j: int| 0 <= j < at implies text[j] != DELIMITER by {
        assert(text[j] == turn.role[j]);
        assert(turn.role.contains(turn.role[j]));
    }
    assert(text[at] == DELIMITER);
    assert(is_split_point(text, at));
    lemma_split_point_unique(text, at);
    assert(text.subrange(0, at) =~= turn.role);
    assert(text.subrange(at + 1, text.len() as int) =~= turn.content);
}

/// Every stored form holds a delimiter, so it decodes to some turn.
pub proof fn lemma_encode_decodes(turn: Turn)
    ensures
        decode(encode(turn)) is Some,
{
    let text = encode(turn);
    lemma_first_delimiter_exists(text, turn.role.len() as int);
}

/// A string that holds a delimiter has a first one.
pub proof fn lemma_first_delimiter_exists(text: Seq<char>, at: int)
    requires
        0 <= at < text.len(),
        text[at] == DELIMITER,
    ensures
        split_point(text) is Some,
        split_point(text).unwrap() <= at,
        is_split_point(text, split_point(text).unwrap()),
    decreases at,
{
    if forall|j: int| 0 <= j < at ==> text[j] != DELIMITER {
        assert(is_split_point(text, at));
        lemma_split_point_unique(text, at);
    } else {
        let j = choose|j: int| 0 <= j < at && text[j] == DELIMITER;
        lemma_first_delimiter_exists(text, j);
    }
}

/// A decoded turn encodes back to the string it came from.
pub proof fn lemma_encode_decode(text: Seq<char>)
    requires
        decode(text) is Some,
    ensures
        encode(decode(text).unwrap()) == text,
        !decode(text).unwrap().role.contains(DELIMITER),
{
    let at = split_point(text).unwrap();
    assert(is_split_point(text, at));
    let turn = decode(text).unwrap();
    assert(encode(turn) =~= text);
    if turn.role.contains(DELIMITER) {
        let j = choose|j: int| 0 <= j < turn.role.len() && turn.role[j] == DELIMITER;
        assert(text[j] == DELIMITER);
    }
}

impl Clone for Message {
    fn clone(&self) -> (copy: Self)
        ensures
            copy@ == self@,
    {
        Message { role: self.role.clone(), content: self.content.clone() }
    }
}

impl Message {
    /// The stored form of this turn.
    pub fn to_redis_string(&self) -> (text: String)
        ensures
            text@ == encode(self@),
    {
        proof {
            reveal_strlit(":");
        }
        let mut text = self.role.clone();
        text.append(":");
        text.append(self.content.as_str());
        assert(text@ =~= encode(self@));
        text
    }

    /// Whether the role holds no delimiter, so that the turn comes back
    /// from its stored form unchanged.
    pub fn has_plain_role(&self) -> (plain: bool)
        ensures
            plain == !self@.role.contains(DELIMITER),
    {
        let chars = chars_of(self.role.as_str());
        let mut at: usize = 0;
        while at < chars.len()
            invariant
                at <= chars.len(),
                chars@ == self.role@,
                forall|j: int| 0 <= j < at ==> chars@[j] != DELIMITER,
            decreases chars.len() - at,
        {
            if chars[at] == DELIMITER {
                assert(self@.role[at as int] == DELIMITER);
                return false;
            }
            at += 1;
        }
        true
    }

    /// Reads a stored string back into a turn. Fails with
    /// [`StoreError::Decode`] exactly when the string holds no delimiter.
    pub fn from_redis_string(redis_string: &str) -> (decoded: Result<Message, StoreError>)
        ensures
            match decode(redis_string@) {
                Some(turn) => decoded is Ok && decoded.unwrap()@ == turn,
                None => decoded == Err::<Message, StoreError>(StoreError::Decode),
            },
    {
        let chars = chars_of(redis_string);
        let len = chars.len();
        let mut at: usize = 0;
        while at < len
            invariant
                at <= len,
                len == chars.len(),
                chars@ == redis_string@,
                forall|j: int| 0 <= j < at ==> redis_string@[j] != DELIMITER,
            decreases len - at,
        {
            if chars[at] == DELIMITER {
                proof {
                    assert(is_split_point(redis_string@, at as int));
                    lemma_split_point_unique(redis_string@, at as int);
                }
                let role = redis_string.substring_char(0, at).to_string();
                let content = redis_string.substring_char(at + 1, len).to_string();
                return Ok(Message { role, content });
            }
            at += 1;
        }
        proof {
            lemma_split_point_none(redis_string@);
        }
        Err(StoreError::Decode)
    }
}

} // verus!
