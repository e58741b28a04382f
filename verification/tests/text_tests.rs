use chat_relay::text::{chars_of, decimal, remove_mentions};

fn clean(text: &str) -> String {
    remove_mentions(text.to_string())
}

#[test]
fn text_without_mention_is_only_trimmed() {
    assert_eq!(clean("hello there"), "hello there");
    assert_eq!(clean("  hello there \n"), "hello there");
    assert_eq!(clean(""), "");
    assert_eq!(clean(" \t\r\n "), "");
}

#[test]
fn a_mention_is_cut_out() {
    assert_eq!(clean("<@123> what is up"), "what is up");
    assert_eq!(clean("what is up <@123>"), "what is up");
    assert_eq!(clean("what <@123> is up"), "what  is up");
    assert_eq!(clean("<@123>"), "");
    assert_eq!(clean("<@>"), "");
}

#[test]
fn every_mention_is_cut_out() {
    assert_eq!(clean("<@1> a <@2> b <@!3>"), "a  b");
    assert_eq!(clean("<@1><@2>x"), "x");
}

#[test]
fn a_mention_that_cutting_lays_bare_goes_too() {
    assert_eq!(clean("<<@1>@2> x"), "x");
    assert_eq!(clean("a <<@1>@2<@3>> b"), "a > b");
}

#[test]
fn an_open_mention_ends_the_cutting() {
    assert_eq!(clean("hello <@123"), "hello <@123");
    assert_eq!(clean("a> <@1 <@2"), "a> <@1 <@2");
    assert_eq!(clean("<@1> and then <@2"), "and then <@2");
}

#[test]
fn other_brackets_stay() {
    assert_eq!(clean("a < b > c"), "a < b > c");
    assert_eq!(clean("<#channel> @user <"), "<#channel> @user <");
    assert_eq!(clean("x<"), "x<");
    assert_eq!(clean("<"), "<");
}

#[test]
fn whitespace_beyond_ascii_is_trimmed() {
    assert_eq!(clean("\u{a0}\u{2003}hi\u{3000}\u{2028}"), "hi");
    assert_eq!(clean("\u{200b}hi"), "\u{200b}hi");
    assert_eq!(clean(" h\u{e9} <@1> \u{1f600} "), "h\u{e9}  \u{1f600}");
}

#[test]
fn cleaning_agrees_with_the_plain_loop() {
    let samples = [
        "",
        "plain",
        "<@1>",
        " <@1> x <@2> ",
        "<<@a>@b>",
        "<@<@<@>>>",
        "a<@b",
        ">><@x>><@",
        "\t<@1>\n",
        "<@1> \u{e9}t\u{e9} <@2>\u{a0}",
    ];
    for sample in samples {
        let mut expected = sample.to_string();
        while let Some(start) = expected.find("<@") {
            match expected[start..].find('>') {
                Some(end) => expected.replace_range(start..start + end + 1, ""),
                None => break,
            }
        }
        assert_eq!(clean(sample), expected.trim());
    }
}

#[test]
fn characters_of_a_string() {
    assert_eq!(chars_of(""), Vec::<char>::new());
    assert_eq!(chars_of("a\u{e9}\u{1f600}"), vec!['a', '\u{e9}', '\u{1f600}']);
}

#[test]
fn numbers_in_decimal() {
    assert_eq!(decimal(0), "0");
    assert_eq!(decimal(7), "7");
    assert_eq!(decimal(10), "10");
    assert_eq!(decimal(2048), "2048");
    assert_eq!(decimal(1234567890), "1234567890");
    assert_eq!(decimal(u32::MAX), "4294967295");
    for number in [0u32, 1, 9, 10, 11, 99, 100, 101, 65535, 65536, 999999999, 1000000000] {
        assert_eq!(decimal(number), number.to_string());
    }
}

fn in_the_white_space_set(c: char) -> bool {
    matches!(
        c,
        '\u{9}'..='\u{d}'
            | '\u{20}'
            | '\u{85}'
            | '\u{a0}'
            | '\u{1680}'
            | '\u{2000}'..='\u{200a}'
            | '\u{2028}'
            | '\u{2029}'
            | '\u{202f}'
            | '\u{205f}'
            | '\u{3000}'
    )
}

#[test]
fn white_space_is_the_listed_set() {
    let mut listed = 0;
    for code in 0..=0x10ffffu32 {
        if let Some(c) = char::from_u32(code) {
            let trimmed_away = clean(&format!("{}x{}", c, c)) == "x";
            assert_eq!(trimmed_away, in_the_white_space_set(c), "U+{:04X}", code);
            if trimmed_away {
                listed += 1;
            }
        }
    }
    assert_eq!(listed, 25);
}

#[test]
fn look_alikes_of_white_space_stay() {
    for c in ['\u{180e}', '\u{200b}', '\u{200c}', '\u{200d}', '\u{2060}', '\u{feff}', '\u{1f}', '\u{0}'] {
        let text = format!("{}x{}", c, c);
        assert_eq!(clean(&text), text);
    }
}
