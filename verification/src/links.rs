//! Link mentions in note text.
//!
//! A mention is `[[`, a run of characters that are not white space, and `]]`.
//! The run may carry a `#fragment` or a `|title`; the target of the mention is
//! what stands before the first `#` or `|`.

use vstd::prelude::*;
use vstd::utf8::{decode_utf8, valid_utf8};

verus! {

/// Unicode white space, the characters a mention cannot contain.
pub open spec fn is_space(c: char) -> bool {
    let u = c as u32;
    ||| 0x09 <= u <= 0x0D
    ||| u == 0x20
    ||| u == 0x85
    ||| u == 0xA0
    ||| u == 0x1680
    ||| 0x2000 <= u <= 0x200A
    ||| u == 0x2028
    ||| u == 0x2029
    ||| u == 0x202F
    ||| u == 0x205F
    ||| u == 0x3000
}

/// The characters that end a target inside a mention.
pub open spec fn is_decoration(c: char) -> bool {
    c == '#' || c == '|'
}

/// `[[` stands at `i`.
pub open spec fn opens_at(s: Seq<char>, i: int) -> bool {
    0 <= i && i + 1 < s.len() && s[i] == '[' && s[i + 1] == '['
}

/// `]]` stands at `j`.
pub open spec fn closes_at(s: Seq<char>, j: int) -> bool {
    0 <= j && j + 1 < s.len() && s[j] == ']' && s[j + 1] == ']'
}

/// The number of characters from `i` on that are not white space, up to the
/// first white space or the end of the text.
pub open spec fn run_len(s: Seq<char>, i: int) -> nat
    decreases s.len() - i,
{
    if 0 <= i < s.len() && !is_space(s[i]) {
        1 + run_len(s, i + 1)
    } else {
        0
    }
}

/// The greatest `n <= max` with `]]` at `start + n`.
pub open spec fn longest_capture(s: Seq<char>, start: int, max: int) -> Option<nat>
    decreases max + 1,
{
    if max < 0 {
        None
    } else if closes_at(s, start + max) {
        Some(max as nat)
    } else {
        longest_capture(s, start, max - 1)
    }
}

/// The length of the capture of the mention that opens at `i`: the longest
/// run without white space after `[[` that `]]` follows.
pub open spec fn capture_len(s: Seq<char>, i: int) -> Option<nat> {
    if opens_at(s, i) {
        longest_capture(s, i + 2, run_len(s, i + 2) - 2)
    } else {
        None
    }
}

/// The first index from `i` on that holds `#` or `|`, or the length of `c`.
pub open spec fn target_end(c: Seq<char>, i: int) -> int
    decreases c.len() - i,
{
    if 0 <= i < c.len() && !is_decoration(c[i]) {
        target_end(c, i + 1)
    } else {
        i
    }
}

/// The target of a capture: what stands before its first `#` or `|`.
pub open spec fn link_target(c: Seq<char>) -> Seq<char> {
    c.take(target_end(c, 0))
}

/// The targets of the mentions in `s` from `i` on, leftmost first; the
/// search goes on behind the `]]` of each mention.
pub open spec fn targets_from(s: Seq<char>, i: int) -> Seq<Seq<char>>
    decreases s.len() - i,
    via targets_from_terminates
{
    if i < 0 || i >= s.len() {
        Seq::empty()
    } else {
        match capture_len(s, i) {
            Some(n) => seq![link_target(s.subrange(i + 2, i + 2 + n))] + targets_from(
                s,
                i + 4 + n,
            ),
            None => targets_from(s, i + 1),
        }
    }
}

#[via_fn]
proof fn targets_from_terminates(s: Seq<char>, i: int) {
    if 0 <= i < s.len() {
        lemma_capture_len(s, i);
    }
}

/// What `longest_capture` finds: the greatest offset up to `max` that holds
/// `]]`, and nothing where no offset does.
pub proof fn lemma_longest_capture(s: Seq<char>, start: int, max: int)
    ensures
        match longest_capture(s, start, max) {
            Some(n) => n <= max && closes_at(s, start + n) && forall|j: int|
                start + n < j <= start + max ==> !closes_at(s, j),
            None => forall|j: int| start <= j <= start + max ==> !closes_at(s, j),
        },
    decreases max + 1,
{
    if max >= 0 && !closes_at(s, start + max) {
        lemma_longest_capture(s, start, max - 1);
    }
}

/// A mention lies inside the text: its `]]` ends at or before the end.
pub proof fn lemma_capture_len(s: Seq<char>, i: int)
    ensures
        match capture_len(s, i) {
            Some(n) => opens_at(s, i) && closes_at(s, i + 2 + n) && i + 4 + n <= s.len(),
            None => true,
        },
{
    if opens_at(s, i) {
        lemma_longest_capture(s, i + 2, run_len(s, i + 2) - 2);
    }
}

/// A run holds no white space, and ends at the end of the text or before
/// white space.
proof fn lemma_run_len(s: Seq<char>, i: int)
    requires
        0 <= i,
    ensures
        i + run_len(s, i) <= s.len() || run_len(s, i) == 0,
        forall|k: int| i <= k < i + run_len(s, i) ==> !is_space(#[trigger] s[k]),
        i + run_len(s, i) < s.len() ==> is_space(s[i + run_len(s, i)]),
    decreases s.len() - i,
{
    if i < s.len() && !is_space(s[i]) {
        lemma_run_len(s, i + 1);
    }
}

/// The run from `k` on goes as far as the characters without white space
/// go.
proof fn lemma_run_len_to(s: Seq<char>, k: int, end: int)
    requires
        0 <= k <= end <= s.len(),
        forall|x: int| k <= x < end ==> !is_space(#[trigger] s[x]),
        end < s.len() ==> is_space(s[end]),
    ensures
        run_len(s, k) == end - k,
    decreases end - k,
{
    if k < end {
        lemma_run_len_to(s, k + 1, end);
    }
}

/// A stretch without white space and without `]]` holds no mention: the
/// search may go on behind it.
proof fn lemma_skip_run(s: Seq<char>, i: int, end: int)
    requires
        0 <= i <= end <= s.len(),
        forall|x: int| i <= x < end ==> !is_space(#[trigger] s[x]),
        end < s.len() ==> is_space(s[end]),
        forall|j: int| i <= j < end ==> !closes_at(s, j),
    ensures
        targets_from(s, i) == targets_from(s, end),
    decreases end - i,
{
    if i < end {
        if opens_at(s, i) {
            if i + 2 <= end {
                lemma_run_len_to(s, i + 2, end);
            }
            lemma_longest_capture(s, i + 2, run_len(s, i + 2) - 2);
        }
        lemma_skip_run(s, i + 1, end);
    }
}

/// What a mention captures holds no white space.
pub proof fn lemma_capture_without_space(s: Seq<char>, i: int)
    ensures
        match capture_len(s, i) {
            Some(n) => forall|k: int| i + 2 <= k < i + 2 + n ==> !is_space(#[trigger] s[k]),
            None => true,
        },
{
    if opens_at(s, i) {
        lemma_longest_capture(s, i + 2, run_len(s, i + 2) - 2);
        lemma_run_len(s, i + 2);
    }
}

proof fn lemma_target_end(c: Seq<char>, i: int)
    requires
        0 <= i <= c.len(),
    ensures
        i <= target_end(c, i) <= c.len(),
        forall|k: int| i <= k < target_end(c, i) ==> !is_decoration(#[trigger] c[k]),
        target_end(c, i) < c.len() ==> is_decoration(c[target_end(c, i)]),
    decreases c.len() - i,
{
    if i < c.len() && !is_decoration(c[i]) {
        lemma_target_end(c, i + 1);
    }
}

/// The target of a capture is the capture up to its first `#` or `|`: it
/// begins the capture, holds neither `#` nor `|`, and where it is not the
/// whole capture, a `#` or a `|` follows it. So a capture without `#` and
/// `|` is its own target.
pub proof fn lemma_link_target(c: Seq<char>)
    ensures
        link_target(c).is_prefix_of(c),
        forall|k: int|
            0 <= k < link_target(c).len() ==> !is_decoration(#[trigger] link_target(c)[k]),
        link_target(c).len() < c.len() ==> is_decoration(c[link_target(c).len() as int]),
        (forall|k: int| 0 <= k < c.len() ==> !is_decoration(#[trigger] c[k])) ==> link_target(c)
            == c,
{
    lemma_target_end(c, 0);
}

/// The targets of all mentions in a text, in order of appearance.
pub open spec fn link_targets(text: Seq<char>) -> Seq<Seq<char>> {
    targets_from(text, 0)
}

/// Whether `c` is white space.
pub fn is_whitespace(c: char) -> (b: bool)
    ensures
        b == is_space(c),
{
    let u: u32 = c as u32;
    (0x09 <= u && u <= 0x0D) || u == 0x20 || u == 0x85 || u == 0xA0 || u == 0x1680 || (0x2000
        <= u && u <= 0x200A) || u == 0x2028 || u == 0x2029 || u == 0x202F || u == 0x205F || u
        == 0x3000
}

/// The characters of a text, one by one.
fn text_chars(text: &str) -> (v: Vec<char>)
    ensures
        v@ == text@,
{
    let mut v: Vec<char> = Vec::new();
    for c in it: text.chars()
        invariant
            it.seq() == text@,
            v@ == it.seq().take(it.index() as int),
    {
        v.push(c);
    }
    v
}

/// Counts the characters from `i` on up to the first white space.
fn run_length(s: &Vec<char>, i: usize) -> (n: usize)
    requires
        i <= s.len(),
    ensures
        n == run_len(s@, i as int),
        i + n <= s.len(),
{
    let mut k: usize = i;
    while k < s.len() && !is_whitespace(s[k])
        invariant
            i <= k <= s.len(),
            run_len(s@, i as int) == (k - i) + run_len(s@, k as int),
        decreases s.len() - k,
    {
        k += 1;
    }
    k - i
}

/// Looks for the last `]]` at an offset of at most `max` behind `start`.
fn find_close(s: &Vec<char>, start: usize, max: usize) -> (r: Option<usize>)
    requires
        start + max + 2 <= s.len(),
    ensures
        match r {
            Some(n) => longest_capture(s@, start as int, max as int) == Some(n as nat),
            None => longest_capture(s@, start as int, max as int) is None,
        },
{
    let mut m: usize = max + 1;
    while m > 0
        invariant
            m <= max + 1,
            start + max + 2 <= s.len(),
            longest_capture(s@, start as int, max as int) == longest_capture(
                s@,
                start as int,
                m - 1,
            ),
        decreases m,
    {
        m -= 1;
        if s[start + m] == ']' && s[start + m + 1] == ']' {
            return Some(m);
        }
    }
    None
}

/// Looks for a mention that opens at `i`. Returns the length of its
/// capture, if there is one, and where the search goes on: behind the
/// mention, or behind what can hold no mention.
fn scan_at(s: &Vec<char>, i: usize) -> (found: (Option<usize>, usize))
    requires
        i < s.len(),
    ensures
        i < found.1 <= s.len(),
        match found.0 {
            Some(n) => capture_len(s@, i as int) == Some(n as nat) && found.1 == i + 4 + n,
            None => targets_from(s@, i as int) == targets_from(s@, found.1 as int),
        },
{
    if s.len() - i < 2 || s[i] != '[' || s[i + 1] != '[' {
        return (None, i + 1);
    }
    let run = run_length(s, i + 2);
    let end = i + 2 + run;
    proof {
        lemma_run_len(s@, i + 2);
        lemma_capture_len(s@, i as int);
    }
    let close = if run < 2 {
        None
    } else {
        find_close(s, i + 2, run - 2)
    };
    match close {
        Some(n) => (Some(n), i + 4 + n),
        None => {
            proof {
                lemma_longest_capture(s@, i + 2, run - 2);
                assert forall|j: int| i <= j < end implies !closes_at(s@, j) by {}
                lemma_skip_run(s@, i as int, end as int);
            }
            (None, end)
        },
    }
}

/// The length of the target of the capture `s[from..to]`.
fn target_length(s: &Vec<char>, from: usize, to: usize) -> (k: usize)
    requires
        from <= to <= s.len(),
    ensures
        k == target_end(s@.subrange(from as int, to as int), 0),
        k <= to - from,
{
    let ghost c = s@.subrange(from as int, to as int);
    let mut k: usize = 0;
    while from + k < to && s[from + k] != '#' && s[from + k] != '|'
        invariant
            from <= to <= s.len(),
            k <= to - from,
            c == s@.subrange(from as int, to as int),
            target_end(c, 0) == target_end(c, k as int),
        decreases to - from - k,
    {
        k += 1;
    }
    k
}

/// `String::push`: the character is put at the end of the text.
#[verifier::external_body]
fn push_char(text: &mut String, c: char)
    ensures
        final(text)@ == old(text)@.push(c),
{
    text.push(c);
}

/// The characters `s[from..to]` as a text.
fn text_between(s: &Vec<char>, from: usize, to: usize) -> (text: String)
    requires
        from <= to <= s.len(),
    ensures
        text@ == s@.subrange(from as int, to as int),
{
    let mut text = String::new();
    let mut i: usize = from;
    while i < to
        invariant
            from <= i <= to <= s.len(),
            text@ == s@.subrange(from as int, i as int),
        decreases to - i,
    {
        push_char(&mut text, s[i]);
        i += 1;
    }
    text
}

/// `std::str::from_utf8`: the bytes taken as text, where they are the UTF-8
/// encoding of a text, and nothing where they are not.
#[verifier::external_body]
fn as_text(bytes: &[u8]) -> (text: Option<&str>)
    ensures
        text is Some == valid_utf8(bytes@),
        text matches Some(t) ==> t@ == decode_utf8(bytes@),
{
    std::str::from_utf8(bytes).ok()
}

/// The link targets that the content of a note mentions, and nothing where
/// the content is no text: where the bytes are not the UTF-8 encoding of
/// one.
pub fn read_links(content: &[u8]) -> (links: Option<Vec<String>>)
    ensures
        links is Some == valid_utf8(content@),
        links matches Some(found) ==> found.deep_view() == link_targets(decode_utf8(content@)),
{
    match as_text(content) {
        Some(text) => Some(extract_links(text)),
        None => None,
    }
}

/// The link targets that a note mentions, in order of appearance and with
/// repetitions. A text without mentions has none.
pub fn extract_links(text: &str) -> (links: Vec<String>)
    ensures
        links.deep_view() == link_targets(text@),
{
    let s = text_chars(text);
    let n = s.len();
    let mut links: Vec<String> = Vec::new();
    let mut i: usize = 0;
    while i < n
        invariant
            s@ == text@,
            n == s.len(),
            i <= n,
            links.deep_view() + targets_from(s@, i as int) == targets_from(s@, 0),
        decreases n - i,
    {
        let (found, next) = scan_at(&s, i);
        if let Some(len) = found {
            proof {
                lemma_capture_len(s@, i as int);
            }
            let k = target_length(&s, i + 2, i + 2 + len);
            let target = text_between(&s, i + 2, i + 2 + k);
            assert(target@ == link_target(s@.subrange(i + 2, i + 2 + len)));
            links.push(target);
        }
        i = next;
    }
    links
}

} // verus!
