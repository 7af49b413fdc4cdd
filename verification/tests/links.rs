use markdown_links::links::{extract_links, is_whitespace, read_links};

fn links(text: &str) -> Vec<String> {
    extract_links(text)
}

#[test]
fn plain_mention_is_its_own_target() {
    assert_eq!(links("[[a]]"), vec!["a"]);
}

#[test]
fn fragment_is_cut() {
    assert_eq!(links("[[a#sec]]"), vec!["a"]);
}

#[test]
fn title_is_cut() {
    assert_eq!(links("[[a|Title]]"), vec!["a"]);
}

#[test]
fn fragment_and_title_are_cut() {
    assert_eq!(links("[[a#sec|Title]]"), vec!["a"]);
    assert_eq!(links("[[a|Title#sec]]"), vec!["a"]);
}

#[test]
fn text_without_mention_has_no_links() {
    assert_eq!(links(""), Vec::<String>::new());
    assert_eq!(links("no links here, [not] [[ even ]] this"), Vec::<String>::new());
    assert_eq!(links("[[unclosed"), Vec::<String>::new());
    assert_eq!(links("[single]]"), Vec::<String>::new());
}

#[test]
fn several_mentions_in_one_line_in_order_with_repetitions() {
    assert_eq!(links("see [[b]] and [[a]] and [[b]] again"), vec!["b", "a", "b"]);
}

#[test]
fn mentions_on_several_lines() {
    assert_eq!(links("first [[one]]\nsecond\n[[two#x]] [[three|t]]\n"), vec!["one", "two", "three"]);
}

#[test]
fn a_mention_takes_the_longest_run_that_closes() {
    assert_eq!(links("[[a]][[b]]"), vec!["a]][[b"]);
    assert_eq!(links("[[a]]]"), vec!["a]"]);
    assert_eq!(links("[[[a]]"), vec!["[a"]);
}

#[test]
fn white_space_ends_the_run() {
    assert_eq!(links("[[a b]]"), Vec::<String>::new());
    assert_eq!(links("[[a]] b]]"), vec!["a"]);
    assert_eq!(links("[[a\n]]"), Vec::<String>::new());
    assert_eq!(links("[[a\u{00a0}b]]"), Vec::<String>::new());
    assert_eq!(links("[[a\u{3000}b]] [[c]]"), vec!["c"]);
}

#[test]
fn an_opening_that_does_not_close_is_passed_over() {
    assert_eq!(links("[[a [[b]]"), vec!["b"]);
    assert_eq!(links("[[[[a]]"), vec!["[[a"]);
}

#[test]
fn empty_capture_and_empty_target() {
    assert_eq!(links("[[]]"), vec![""]);
    assert_eq!(links("[[#top]]"), vec![""]);
    assert_eq!(links("[[|title]]"), vec![""]);
}

#[test]
fn text_of_many_bytes_a_character() {
    assert_eq!(links("zuerst [[Über#Abschnitt|Titel]], dann [[日本語]] — [[naïve|x]]"), vec!["Über", "日本語", "naïve"]);
}

#[test]
fn white_space_is_told_from_the_rest() {
    for c in [' ', '\t', '\n', '\r', '\u{0b}', '\u{0c}', '\u{85}', '\u{a0}', '\u{1680}', '\u{2000}', '\u{200a}', '\u{2028}', '\u{2029}', '\u{202f}', '\u{205f}', '\u{3000}'] {
        assert!(is_whitespace(c));
    }
    for c in ['a', '[', ']', '#', '|', '\u{200b}', '\u{feff}', '\u{1f}', '\u{2001}'] {
        assert_eq!(is_whitespace(c), c.is_whitespace());
    }
    for u in 0u32..0x3100 {
        if let Some(c) = char::from_u32(u) {
            assert_eq!(is_whitespace(c), c.is_whitespace());
        }
    }
}

#[test]
fn bytes_that_are_text_are_read() {
    assert_eq!(read_links(b"[[a#sec|Title]] [[b]]"), Some(vec!["a".to_string(), "b".to_string()]));
    assert_eq!(read_links("[[\u{dc}ber]] [[\u{65e5}\u{672c}]] [[\u{1f600}|x]]".as_bytes()), Some(vec!["\u{dc}ber".to_string(), "\u{65e5}\u{672c}".to_string(), "\u{1f600}".to_string()]));
    assert_eq!(read_links(b""), Some(vec![]));
}

#[test]
fn bytes_that_are_no_text_are_not_read() {
    assert_eq!(read_links(&[0xff]), None);
    assert_eq!(read_links(&[b'[', b'[', b'a', b']', b']', 0x80]), None);
    assert_eq!(read_links(&[0xc3]), None);
    assert_eq!(read_links(&[0xc0, 0xaf]), None);
    assert_eq!(read_links(&[0xed, 0xa0, 0x80]), None);
    assert_eq!(read_links(&[0xf4, 0x90, 0x80, 0x80]), None);
    assert_eq!(read_links(&[0xf4, 0x8f, 0xbf, 0xbf]), Some(vec![]));
}

#[test]
fn a_long_text_is_read_in_one_pass() {
    let mut text = String::new();
    for i in 0..50_000 {
        text.push_str("word [[note");
        text.push_str(&(i % 100).to_string());
        text.push_str("#part|shown]] more\n");
    }
    let found = links(&text);
    assert_eq!(found.len(), 50_000);
    assert_eq!(found[0], "note0");
    assert_eq!(found[49_999], "note99");
    let brackets = "[".repeat(300_000);
    assert_eq!(links(&brackets), Vec::<String>::new());
    let closed = format!("{}]]", "[".repeat(300_000));
    assert_eq!(links(&closed), vec!["[".repeat(299_998)]);
}
