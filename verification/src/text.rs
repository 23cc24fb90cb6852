//! Names as sequences of characters: prefixes and substrings.

use vstd::prelude::*;

verus! {

/// `needle` stands in `text` at position `at`, character for character.
pub open spec fn occurs_at(needle: Seq<char>, text: Seq<char>, at: int) -> bool {
    &&& 0 <= at
    &&& at + needle.len() <= text.len()
    &&& text.subrange(at, at + needle.len()) == needle
}

/// `text` begins with `prefix`.
pub open spec fn starts_with(text: Seq<char>, prefix: Seq<char>) -> bool {
    occurs_at(prefix, text, 0)
}

/// `needle` stands somewhere in `text`.
pub open spec fn contains(text: Seq<char>, needle: Seq<char>) -> bool {
    exists|at: int| #[trigger] occurs_at(needle, text, at)
}

/// Every text contains itself, and begins with itself.
pub proof fn lemma_contains_itself(text: Seq<char>)
    ensures
        contains(text, text),
        starts_with(text, text),
{
    assert(text.subrange(0, text.len() as int) =~= text);
    assert(occurs_at(text, text, 0));
}

/// A text that contains `needle` still contains it with more text before and after.
pub proof fn lemma_contains_in_longer(
    before: Seq<char>,
    text: Seq<char>,
    after: Seq<char>,
    needle: Seq<char>,
)
    requires
        contains(text, needle),
    ensures
        contains(before + text + after, needle),
{
    let at = choose|at: int| occurs_at(needle, text, at);
    let whole = before + text + after;
    assert(whole.subrange(before.len() + at, before.len() + at + needle.len()) =~= text.subrange(
        at,
        at + needle.len(),
    ));
    assert(occurs_at(needle, whole, before.len() + at));
}

/// The characters of a string, in order.
pub fn chars_of(text: &str) -> (chars: Vec<char>)
    ensures
        chars@ == text@,
{
    let mut chars: Vec<char> = Vec::new();
    for c in it: text.chars()
        invariant
            chars@ == it.seq().take(it.index() as int),
    {
        chars.push(c);
    }
    chars
}

/// Whether `needle` stands in `text` at position `at`.
fn found_at(text: &Vec<char>, needle: &Vec<char>, at: usize) -> (found: bool)
    requires
        at + needle.len() <= text.len(),
    ensures
        found == occurs_at(needle@, text@, at as int),
{
    let mut i: usize = 0;
    while i < needle.len()
        invariant
            i <= needle.len(),
            at + needle.len() <= text.len(),
            forall|j: int| 0 <= j < i ==> text@[at + j] == needle@[j],
        decreases needle.len() - i,
    {
        if text[at + i] != needle[i] {
            assert(text@.subrange(at as int, at + needle.len())[i as int] == text@[at + i]);
            return false;
        }
        i += 1;
    }
    assert(text@.subrange(at as int, at + needle.len()) =~= needle@);
    true
}

/// Whether `text` begins with `prefix`.
pub fn chars_start_with(text: &Vec<char>, prefix: &Vec<char>) -> (found: bool)
    ensures
        found == starts_with(text@, prefix@),
{
    if prefix.len() > text.len() {
        false
    } else {
        found_at(text, prefix, 0)
    }
}

/// Whether `needle` stands somewhere in `text`.
pub fn chars_contain(text: &Vec<char>, needle: &Vec<char>) -> (found: bool)
    ensures
        found == contains(text@, needle@),
{
    if needle.len() > text.len() {
        return false;
    }
    let last: usize = text.len() - needle.len();
    let mut at: usize = 0;
    loop
        invariant
            at <= last,
            last == text.len() - needle.len(),
            forall|k: int| 0 <= k < at ==> !occurs_at(needle@, text@, k),
        decreases last - at,
    {
        if found_at(text, needle, at) {
            return true;
        }
        if at == last {
            return false;
        }
        at += 1;
    }
}

/// Whether the string `text` begins with the string `prefix`.
pub fn text_starts_with(text: &str, prefix: &str) -> (found: bool)
    ensures
        found == starts_with(text@, prefix@),
{
    let text_chars = chars_of(text);
    let prefix_chars = chars_of(prefix);
    chars_start_with(&text_chars, &prefix_chars)
}

/// Whether the string `needle` stands somewhere in the string `text`.
pub fn text_contains(text: &str, needle: &str) -> (found: bool)
    ensures
        found == contains(text@, needle@),
{
    let text_chars = chars_of(text);
    let needle_chars = chars_of(needle);
    chars_contain(&text_chars, &needle_chars)
}

} // verus!
