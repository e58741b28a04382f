//! Reading the answer of the completion service.

use vstd::prelude::*;
use crate::processor::{Completion, CompletionView};

verus! {

/// A JSON value of the `serde_json` crate.
#[verifier::external_type_specification]
#[verifier::external_body]
pub struct ExJson(serde_json::Value);

/// One step into a JSON value: to the member of an object under a key, or
/// to the element of an array at a position.
pub enum Step {
    Key(Seq<char>),
    At(nat),
}

/// The strings that a `serde_json::Value` holds, each under the steps that
/// lead to it from the value itself. A value that is a string holds itself
/// under no step; a step that a value cannot take leads to no string.
pub uninterp spec fn json_texts(value: serde_json::Value) -> Map<Seq<Step>, Seq<char>>;

/// The strings that lie behind `step`, each under the steps that are left.
pub open spec fn behind(texts: Map<Seq<Step>, Seq<char>>, step: Step) -> Map<
    Seq<Step>,
    Seq<char>,
> {
    Map::new(
        |path: Seq<Step>| texts.contains_key(seq![step] + path),
        |path: Seq<Step>| texts[seq![step] + path],
    )
}

/// The string under `path`, where there is one.
pub open spec fn text_at(texts: Map<Seq<Step>, Seq<char>>, path: Seq<Step>) -> Option<
    Seq<char>,
> {
    if texts.contains_key(path) {
        Some(texts[path])
    } else {
        None
    }
}

/// The steps to the content of an answer: the content of the message of the
/// first of its choices.
pub open spec fn content_path() -> Seq<Step> {
    seq![Step::Key("choices"@), Step::At(0), Step::Key("message"@), Step::Key("content"@)]
}

/// The completion that an answer with these strings carries.
pub open spec fn completion_for(texts: Map<Seq<Step>, Seq<char>>) -> CompletionView {
    match text_at(texts, content_path()) {
        Some(text) => CompletionView::Text(text),
        None => CompletionView::Empty,
    }
}

/// Indexing a `serde_json::Value` by a key: the member of that name in an
/// object, and the null value where there is none or the value is no
/// object. What comes back holds the strings that lie behind that key.
#[verifier::external_body]
fn member<'a>(value: &'a serde_json::Value, key: &str) -> (inner: &'a serde_json::Value)
    ensures
        json_texts(*inner) == behind(json_texts(*value), Step::Key(key@)),
{
    &value[key]
}

/// Indexing a `serde_json::Value` by a position: the element there in an
/// array, and the null value where there is none or the value is no array.
/// What comes back holds the strings that lie behind that position.
#[verifier::external_body]
fn element<'a>(value: &'a serde_json::Value, at: usize) -> (inner: &'a serde_json::Value)
    ensures
        json_texts(*inner) == behind(json_texts(*value), Step::At(at as nat)),
{
    &value[at]
}

/// `serde_json::Value::as_str`: the text of a value that is a string, which
/// is the string that the value holds under no step.
#[verifier::external_body]
fn text_of(value: &serde_json::Value) -> (text: Option<String>)
    ensures
        match text {
            Some(found) => text_at(json_texts(*value), Seq::empty()) == Some(found@),
            None => text_at(json_texts(*value), Seq::empty()) is None,
        },
{
    value.as_str().map(str::to_owned)
}

/// The completion for the content that an answer carried, or did not
/// carry.
pub fn completion_of(content: Option<String>) -> (completion: Completion)
    ensures
        completion@ == match content {
            Some(text) => CompletionView::Text(text@),
            None => CompletionView::Empty,
        },
{
    match content {
        Some(text) => Completion::Text(text),
        None => Completion::Empty,
    }
}

/// Reads the completion from the answer of the service: the content of the
/// message of its first choice, where that is a string, and else a
/// completion without text. An answer that arrived is never a failure.
pub fn completion_in(response: &serde_json::Value) -> (completion: Completion)
    ensures
        completion@ == completion_for(json_texts(*response)),
        !(completion@ is Failed),
{
    let choices = member(response, "choices");
    let choice = element(choices, 0);
    let message = member(choice, "message");
    let content = member(message, "content");
    let text = text_of(content);
    proof {
        let nothing = Seq::<Step>::empty();
        let last = seq![Step::Key("content"@)];
        let two = seq![Step::Key("message"@), Step::Key("content"@)];
        let three = seq![Step::At(0), Step::Key("message"@), Step::Key("content"@)];
        assert(seq![Step::Key("content"@)] + nothing =~= last);
        assert(seq![Step::Key("message"@)] + last =~= two);
        assert(seq![Step::At(0)] + two =~= three);
        assert(seq![Step::Key("choices"@)] + three =~= content_path());
        assert(text_at(json_texts(*content), nothing) == text_at(json_texts(*message), last));
        assert(text_at(json_texts(*message), last) == text_at(json_texts(*choice), two));
        assert(text_at(json_texts(*choice), two) == text_at(json_texts(*choices), three));
        assert(text_at(json_texts(*choices), three) == text_at(
            json_texts(*response),
            content_path(),
        ));
    }
    completion_of(text)
}

} // verus!
