use grep_matcher::{Captures, Matcher};
use grep_regex::RegexMatcher;
use markdown_links::links::extract_links;

// The mentions of a text as a regular expression finds them, line by line:
// `[[`, the longest run without white space that `]]` follows, and `]]`.
fn mention() -> RegexMatcher {
    RegexMatcher::new(r"\[\[(\S*)\]\]").unwrap()
}

fn by_regex(matcher: &RegexMatcher, text: &str) -> Vec<String> {
    let mut found = Vec::new();
    for line in text.split('\n') {
        let mut caps = matcher.new_captures().unwrap();
        matcher
            .captures_iter(line.as_bytes(), &mut caps, |local_caps| {
                let capture_group = local_caps.get(1).unwrap();
                let matched = &line[capture_group];
                let cut = matched.find(|c| c == '#' || c == '|').unwrap_or(matched.len());
                found.push(matched[..cut].to_string());
                true
            })
            .unwrap();
    }
    found
}

fn agrees(matcher: &RegexMatcher, text: &str) {
    assert_eq!(extract_links(text), by_regex(matcher, text), "{:?}", text);
}

fn agrees_on_every_text(matcher: &RegexMatcher, alphabet: &[char], length: usize) {
    let mut texts = vec![String::new()];
    for _ in 0..length {
        let mut longer = Vec::new();
        for text in &texts {
            for c in alphabet {
                let mut next = text.clone();
                next.push(*c);
                longer.push(next);
            }
        }
        for text in &longer {
            agrees(matcher, text);
        }
        texts = longer;
    }
}

#[test]
fn the_mentions_are_those_of_the_regular_expression() {
    let matcher = mention();
    for text in [
        "",
        "[[a]]",
        "[[a#sec|Title]] and [[a|Title]] and [[a#sec]]",
        "[[a]][[b]]",
        "[[a]]]] [[[b]]",
        "[[[[a]]",
        "[[a [[b]] c]]",
        "[[]] [[#]] [[|]] [[|#]]",
        "[[a\tb]] [[c]]\r\n[[d]]\n\n[[e",
        "]] [[ ]] [ [x]] [[y] ] [[z]]",
        "[[Über#Abschnitt|Titel]], dann [[日本語]] — [[naïve|x]]",
        "[[a\u{00a0}b]] [[c\u{2003}d]] [[e\u{3000}f]] [[g\u{200b}h]] [[i\u{85}j]]",
        "[[[[[[[[[[[[[[[[[[",
        "]]]]]]]]]]]]]]]]]]",
        "[[a]]#b|c [[d#e]]|f",
    ] {
        agrees(&matcher, text);
    }
}

#[test]
fn the_mentions_are_those_of_the_regular_expression_on_every_short_text() {
    agrees_on_every_text(&mention(), &['[', ']', 'a', ' ', '#', '|', '\n'], 4);
}

#[test]
fn the_mentions_are_those_of_the_regular_expression_on_every_text_of_brackets() {
    agrees_on_every_text(&mention(), &['[', ']', 'a', ' '], 6);
}
