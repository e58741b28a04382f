//! Cleaning the text of an inbound message: mentions are cut out and the
//! rest is trimmed.

use vstd::prelude::*;
use vstd::string::*;

verus! {

/// Whether a character is white space: whether it has the Unicode property
/// `White_Space`. These are the controls from tab to carriage return, the
/// space, the next-line control, the no-break space, the Ogham space mark,
/// the spaces from en quad to hair space, the line and the paragraph
/// separator, the narrow no-break space, the medium mathematical space and
/// the ideographic space.
pub open spec fn is_whitespace(c: char) -> bool {
    let code: u32 = c as u32;
    ||| 0x0009 <= code <= 0x000d
    ||| code == 0x0020
    ||| code == 0x0085
    ||| code == 0x00a0
    ||| code == 0x1680
    ||| 0x2000 <= code <= 0x200a
    ||| code == 0x2028
    ||| code == 0x2029
    ||| code == 0x202f
    ||| code == 0x205f
    ||| code == 0x3000
}

/// `char::is_whitespace`: whether the character has the Unicode property
/// `White_Space`.
#[verifier::external_body]
fn whitespace(c: char) -> (yes: bool)
    ensures
        yes == is_whitespace(c),
{
    c.is_whitespace()
}

/// The character for a digit.
pub open spec fn digit_of(digit: nat) -> char {
    if digit == 0 {
        '0'
    } else if digit == 1 {
        '1'
    } else if digit == 2 {
        '2'
    } else if digit == 3 {
        '3'
    } else if digit == 4 {
        '4'
    } else if digit == 5 {
        '5'
    } else if digit == 6 {
        '6'
    } else if digit == 7 {
        '7'
    } else if digit == 8 {
        '8'
    } else {
        '9'
    }
}

/// A number in decimal, without sign or leading zeros.
pub open spec fn decimal_of(number: nat) -> Seq<char>
    decreases number,
{
    if number < 10 {
        seq![digit_of(number)]
    } else {
        decimal_of(number / 10).push(digit_of(number % 10))
    }
}

/// The text of a digit.
fn digit(value: u32) -> (text: &'static str)
    requires
        value < 10,
    ensures
        text@ == seq![digit_of(value as nat)],
{
    proof {
        reveal_strlit("0");
        reveal_strlit("1");
        reveal_strlit("2");
        reveal_strlit("3");
        reveal_strlit("4");
        reveal_strlit("5");
        reveal_strlit("6");
        reveal_strlit("7");
        reveal_strlit("8");
        reveal_strlit("9");
    }
    let text = match value {
        0 => "0",
        1 => "1",
        2 => "2",
        3 => "3",
        4 => "4",
        5 => "5",
        6 => "6",
        7 => "7",
        8 => "8",
        _ => "9",
    };
    assert(text@ =~= seq![digit_of(value as nat)]);
    text
}

/// A number in decimal.
pub fn decimal(number: u32) -> (text: String)
    ensures
        text@ == decimal_of(number as nat),
    decreases number,
{
    if number < 10 {
        String::from_str(digit(number))
    } else {
        let mut text = decimal(number / 10);
        text.append(digit(number % 10));
        text
    }
}

/// The characters of a string.
pub fn chars_of(text: &str) -> (chars: Vec<char>)
    ensures
        chars@ == text@,
{
    let mut chars: Vec<char> = Vec::new();
    for c in it: text.chars()
        invariant
            it.seq() == text@,
            chars@ == it.seq().take(it.index()),
    {
        chars.push(c);
        assert(it.seq().take(it.index() + 1) =~= it.seq().take(it.index()).push(c));
    }
    assert(text@.take(text@.len() as int) =~= text@);
    chars
}

/// A mention opens at `at`: the characters `<@` stand there.
pub open spec fn opens_mention(text: Seq<char>, at: int) -> bool {
    0 <= at && at + 1 < text.len() && text[at] == '<' && text[at + 1] == '@'
}

/// The first mention of `text` opens at `start` and is closed by the first
/// `>` behind it, which stands at `end`.
pub open spec fn is_first_span(text: Seq<char>, start: int, end: int) -> bool {
    &&& opens_mention(text, start)
    &&& forall|j: int| 0 <= j < start ==> !opens_mention(text, j)
    &&& start <= end < text.len()
    &&& text[end] == '>'
    &&& forall|j: int| start <= j < end ==> text[j] != '>'
}

/// Where the first mention of `text` opens and closes. There is none where
/// no mention opens, and none where the first one that opens is not closed.
pub open spec fn first_span(text: Seq<char>) -> Option<(int, int)> {
    if exists|span: (int, int)| is_first_span(text, span.0, span.1) {
        Some(choose|span: (int, int)| is_first_span(text, span.0, span.1))
    } else {
        None
    }
}

/// `text` with the span from `start` to `end` cut out.
pub open spec fn cut(text: Seq<char>, start: int, end: int) -> Seq<char> {
    text.subrange(0, start) + text.subrange(end + 1, text.len() as int)
}

/// `text` after its first mention was cut out, again and again, until it
/// has none.
pub open spec fn without_mentions(text: Seq<char>) -> Seq<char>
    decreases text.len(),
{
    match first_span(text) {
        Some((start, end)) => if 0 <= start <= end < text.len() {
            without_mentions(cut(text, start, end))
        } else {
            text
        },
        None => text,
    }
}

/// `text` without the white space at its start.
pub open spec fn trim_start(text: Seq<char>) -> Seq<char>
    decreases text.len(),
{
    if text.len() > 0 && is_whitespace(text[0]) {
        trim_start(text.drop_first())
    } else {
        text
    }
}

/// `text` without the white space at its end.
pub open spec fn trim_end(text: Seq<char>) -> Seq<char>
    decreases text.len(),
{
    if text.len() > 0 && is_whitespace(text.last()) {
        trim_end(text.drop_last())
    } else {
        text
    }
}

/// `text` without its mentions and without white space at either end.
pub open spec fn cleaned(text: Seq<char>) -> Seq<char> {
    trim_end(trim_start(without_mentions(text)))
}

/// A text has at most one first mention.
pub proof fn lemma_first_span_unique(text: Seq<char>, start: int, end: int)
    requires
        is_first_span(text, start, end),
    ensures
        first_span(text) == Some((start, end)),
{
    let found = choose|span: (int, int)| is_first_span(text, span.0, span.1);
    assert(is_first_span(text, (start, end).0, (start, end).1));
    assert(is_first_span(text, found.0, found.1));
    if found.0 < start {
        assert(!opens_mention(text, found.0));
    } else if start < found.0 {
        assert(!opens_mention(text, start));
    }
    if found.1 < end {
        assert(text[found.1] != '>');
    } else if end < found.1 {
        assert(text[end] != '>');
    }
}

/// The span of the first mention among `chars`, where it has one.
fn find_span(chars: &Vec<char>) -> (found: Option<(usize, usize)>)
    ensures
        match found {
            Some((start, end)) => first_span(chars@) == Some((start as int, end as int)) && start
                <= end < chars.len(),
            None => first_span(chars@) is None,
        },
{
    let len = chars.len();
    let mut start: usize = 0;
    while len - start >= 2 && !(chars[start] == '<' && chars[start + 1] == '@')
        invariant
            len == chars.len(),
            start <= len,
            forall|j: int| 0 <= j < start ==> !opens_mention(chars@, j),
        decreases len - start,
    {
        start += 1;
    }
    if len - start < 2 {
        assert forall|span: (int, int)| !is_first_span(chars@, span.0, span.1) by {
            if is_first_span(chars@, span.0, span.1) {
                assert(opens_mention(chars@, span.0));
            }
        }
        return None;
    }
    let mut end: usize = start;
    while end < len && chars[end] != '>'
        invariant
            len == chars.len(),
            start <= end <= len,
            forall|j: int| start <= j < end ==> chars@[j] != '>',
        decreases len - end,
    {
        end += 1;
    }
    if end >= len {
        assert forall|span: (int, int)| !is_first_span(chars@, span.0, span.1) by {
            if is_first_span(chars@, span.0, span.1) {
                if span.0 < start {
                    assert(!opens_mention(chars@, span.0));
                } else if start < span.0 {
                    assert(opens_mention(chars@, start as int));
                } else {
                    assert(chars@[span.1] != '>');
                }
            }
        }
        return None;
    }
    proof {
        assert(is_first_span(chars@, start as int, end as int));
        lemma_first_span_unique(chars@, start as int, end as int);
    }
    Some((start, end))
}

/// Cuts every mention out of `msg` and trims what is left: as long as the
/// text has a first `<@` with a `>` behind it, the span from the one to the
/// other goes; then the white space at both ends goes.
pub fn remove_mentions(msg: String) -> (clean: String)
    ensures
        clean@ == cleaned(msg@),
{
    let mut message = msg;
    loop
        invariant
            without_mentions(message@) == without_mentions(msg@),
        ensures
            message@ == without_mentions(msg@),
        decreases message@.len(),
    {
        let chars = chars_of(message.as_str());
        match find_span(&chars) {
            Some((start, end)) => {
                let text = message.as_str();
                let mut rest = text.substring_char(0, start).to_string();
                rest.append(text.substring_char(end + 1, chars.len()));
                assert(rest@ =~= cut(message@, start as int, end as int));
                message = rest;
            },
            None => {
                break ;
            },
        }
    }
    let chars = chars_of(message.as_str());
    let len = chars.len();
    let mut from: usize = 0;
    assert(chars@.skip(0) =~= chars@);
    while from < len && whitespace(chars[from])
        invariant
            len == chars.len(),
            from <= len,
            trim_start(chars@) == trim_start(chars@.skip(from as int)),
        decreases len - from,
    {
        assert(chars@.skip(from as int).drop_first() =~= chars@.skip(from + 1));
        from += 1;
    }
    let ghost tail = chars@.skip(from as int);
    assert(trim_start(chars@) == tail);
    let mut to: usize = len;
    while to > from && whitespace(chars[to - 1])
        invariant
            len == chars.len(),
            from <= to <= len,
            tail == chars@.skip(from as int),
            trim_end(tail) == trim_end(chars@.subrange(from as int, to as int)),
        decreases to,
    {
        assert(chars@.subrange(from as int, to as int).drop_last() =~= chars@.subrange(
            from as int,
            to - 1,
        ));
        to -= 1;
    }
    assert(tail =~= chars@.subrange(from as int, len as int));
    message.as_str().substring_char(from, to).to_string()
}

} // verus!
