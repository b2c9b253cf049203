//! The vocabulary in which the text functions of this crate are specified:
//! substrings, lines, words and trimming over sequences of characters, and
//! the few standard-library calls whose results are taken on trust.

use vstd::prelude::*;
use vstd::string::{StrSliceExecFns, StringExecFns};

verus! {

/// The character views of a sequence of string slices.
pub open spec fn str_views(parts: Seq<&str>) -> Seq<Seq<char>> {
    parts.map_values(|part: &str| part@)
}

/// The character views of a sequence of owned strings.
pub open spec fn string_views(parts: Seq<String>) -> Seq<Seq<char>> {
    parts.map_values(|part: String| part@)
}

/// `needle` occurs in `haystack` as a contiguous run of characters.
/// The empty needle occurs in every haystack.
pub open spec fn is_substring(needle: Seq<char>, haystack: Seq<char>) -> bool {
    exists|start: int|
        0 <= start && start + needle.len() <= haystack.len() && #[trigger] haystack.subrange(
            start,
            start + needle.len(),
        ) == needle
}

/// Index of the first line feed in `text`, or the length of `text` if it
/// holds none.
pub open spec fn first_line_feed(text: Seq<char>) -> int
    decreases text.len(),
{
    if text.len() == 0 || text[0] == '\n' {
        0
    } else {
        1 + first_line_feed(text.skip(1))
    }
}

/// `line` without the carriage return that ends it, if one does.
pub open spec fn without_carriage_return(line: Seq<char>) -> Seq<char> {
    if line.len() > 0 && line.last() == '\r' {
        line.drop_last()
    } else {
        line
    }
}

/// The lines of `text`. A line ends at a line feed, or at a carriage return
/// directly followed by a line feed; neither belongs to the line. What
/// follows the last line feed is a line of its own unless it is empty, and
/// keeps a carriage return at its end.
pub open spec fn lines_of(text: Seq<char>) -> Seq<Seq<char>>
    decreases text.len(),
{
    let end = first_line_feed(text);
    if text.len() == 0 {
        Seq::empty()
    } else if 0 <= end < text.len() {
        seq![without_carriage_return(text.take(end))] + lines_of(text.skip(end + 1))
    } else {
        seq![text]
    }
}

/// The lowercase form that `str::to_lowercase` gives a text: Unicode's
/// mapping, which depends on nothing but the characters.
pub uninterp spec fn lowercase_of(text: Seq<char>) -> Seq<char>;

/// Whether `char::is_whitespace` holds of a character: Unicode's
/// `White_Space` property.
pub uninterp spec fn is_whitespace(c: char) -> bool;

/// Number of whitespace characters at the start of `text`.
pub open spec fn leading_whitespace(text: Seq<char>) -> nat
    decreases text.len(),
{
    if text.len() == 0 || !is_whitespace(text[0]) {
        0
    } else {
        1 + leading_whitespace(text.skip(1))
    }
}

/// Number of whitespace characters at the end of `text`.
pub open spec fn trailing_whitespace(text: Seq<char>) -> nat
    decreases text.len(),
{
    if text.len() == 0 || !is_whitespace(text.last()) {
        0
    } else {
        1 + trailing_whitespace(text.drop_last())
    }
}

/// Number of characters at the start of `text` before its first whitespace
/// character.
pub open spec fn leading_word(text: Seq<char>) -> nat
    decreases text.len(),
{
    if text.len() == 0 || is_whitespace(text[0]) {
        0
    } else {
        1 + leading_word(text.skip(1))
    }
}

/// `text` without the whitespace at its start and at its end.
pub open spec fn trimmed(text: Seq<char>) -> Seq<char> {
    let rest = text.skip(leading_whitespace(text) as int);
    rest.take(rest.len() - trailing_whitespace(rest))
}

/// The words of `text`: its maximal runs of characters that are not
/// whitespace, in order.
pub open spec fn words_of(text: Seq<char>) -> Seq<Seq<char>>
    decreases text.len(),
{
    let gap = leading_whitespace(text) as int;
    let word = leading_word(text.skip(gap)) as int;
    if 0 < word && gap + word <= text.len() {
        seq![text.subrange(gap, gap + word)] + words_of(text.skip(gap + word))
    } else {
        Seq::empty()
    }
}

/// `left` comes before `right` or equals it in the order of strings:
/// character by character, by code point, a text before those that it
/// starts.
pub open spec fn in_order(left: Seq<char>, right: Seq<char>) -> bool
    decreases left.len(),
{
    if left.len() == 0 {
        true
    } else if right.len() == 0 {
        false
    } else if left[0] != right[0] {
        (left[0] as u32) < (right[0] as u32)
    } else {
        in_order(left.skip(1), right.skip(1))
    }
}

/// No text stands before one that comes before it.
pub open spec fn all_in_order(texts: Seq<Seq<char>>) -> bool {
    forall|i: int, j: int| 0 <= i <= j < texts.len() ==> in_order(texts[i], texts[j])
}

/// `str::contains` with a string pattern: whether `needle` occurs in
/// `haystack`.
#[verifier::external_body]
pub(crate) fn contains(haystack: &str, needle: &str) -> (found: bool)
    ensures
        found == is_substring(needle@, haystack@),
{
    haystack.contains(needle)
}

/// `str::lines`: the lines of `text` as slices of it, in order, without
/// their line endings.
#[verifier::external_body]
pub(crate) fn lines<'a>(text: &'a str) -> (parts: Vec<&'a str>)
    ensures
        str_views(parts@) == lines_of(text@),
{
    text.lines().collect()
}

/// `str::to_lowercase`: the lowercase form of `text`, by name only.
#[verifier::external_body]
pub(crate) fn to_lowercase(text: &str) -> (lowered: String)
    ensures
        lowered@ == lowercase_of(text@),
{
    text.to_lowercase()
}

/// `char::is_whitespace`, by name only.
#[verifier::external_body]
pub(crate) fn char_is_whitespace(c: char) -> (white: bool)
    ensures
        white == is_whitespace(c),
{
    c.is_whitespace()
}

/// `String::push` appends one character.
pub assume_specification[ String::push ](text: &mut String, c: char)
    ensures
        final(text)@ == old(text)@.push(c),
;

/// A run of whitespace that ends at the text's end or before a character
/// that is none is the text's leading whitespace.
proof fn lemma_leading_whitespace(text: Seq<char>, run: int)
    requires
        0 <= run <= text.len(),
        forall|i: int| 0 <= i < run ==> is_whitespace(text[i]),
        run < text.len() ==> !is_whitespace(text[run]),
    ensures
        leading_whitespace(text) == run,
    decreases run,
{
    if run > 0 {
        let rest = text.skip(1);
        assert forall|i: int| 0 <= i < run - 1 implies is_whitespace(rest[i]) by {
            assert(rest[i] == text[i + 1]);
        }
        lemma_leading_whitespace(rest, run - 1);
    }
}

/// A run of whitespace that starts at the text's start or behind a
/// character that is none is the text's trailing whitespace.
proof fn lemma_trailing_whitespace(text: Seq<char>, run: int)
    requires
        0 <= run <= text.len(),
        forall|i: int| text.len() - run <= i < text.len() ==> is_whitespace(text[i]),
        run < text.len() ==> !is_whitespace(text[text.len() - run - 1]),
    ensures
        trailing_whitespace(text) == run,
    decreases run,
{
    if run > 0 {
        lemma_trailing_whitespace(text.drop_last(), run - 1);
    }
}

/// A run without whitespace that ends at the text's end or before a
/// whitespace character is the text's leading word.
proof fn lemma_leading_word(text: Seq<char>, run: int)
    requires
        0 <= run <= text.len(),
        forall|i: int| 0 <= i < run ==> !is_whitespace(text[i]),
        run < text.len() ==> is_whitespace(text[run]),
    ensures
        leading_word(text) == run,
    decreases run,
{
    if run > 0 {
        let rest = text.skip(1);
        assert forall|i: int| 0 <= i < run - 1 implies !is_whitespace(rest[i]) by {
            assert(rest[i] == text[i + 1]);
        }
        lemma_leading_word(rest, run - 1);
    }
}

/// The characters of `text`, one by one.
pub fn chars_of(text: &str) -> (chars: Vec<char>)
    ensures
        chars@ == text@,
{
    let mut chars: Vec<char> = Vec::new();
    for c in it: text.chars()
        invariant
            it.seq() == text@,
            chars@ == text@.take(it.index()),
    {
        chars.push(c);
        assert(chars@ == text@.take(it.index() + 1));
    }
    assert(text@.take(text@.len() as int) == text@);
    chars
}

/// Whether two string slices hold the same characters.
pub fn same_text(left: &str, right: &str) -> (same: bool)
    ensures
        same == (left@ == right@),
{
    String::from_str(left) == String::from_str(right)
}

/// The position behind the whitespace that `chars` holds from `from` on.
fn skip_whitespace(chars: &Vec<char>, from: usize) -> (next: usize)
    requires
        from <= chars.len(),
    ensures
        next == from + leading_whitespace(chars@.skip(from as int)),
        next <= chars.len(),
{
    let mut next: usize = from;
    while next < chars.len() && char_is_whitespace(chars[next])
        invariant
            from <= next <= chars.len(),
            forall|i: int| from <= i < next ==> is_whitespace(chars@[i]),
        decreases chars.len() - next,
    {
        next += 1;
    }
    proof {
        lemma_leading_whitespace(chars@.skip(from as int), next - from);
    }
    next
}

/// The position behind the word that `chars` holds from `from` on.
fn skip_word(chars: &Vec<char>, from: usize) -> (next: usize)
    requires
        from <= chars.len(),
    ensures
        next == from + leading_word(chars@.skip(from as int)),
        next <= chars.len(),
{
    let mut next: usize = from;
    while next < chars.len() && !char_is_whitespace(chars[next])
        invariant
            from <= next <= chars.len(),
            forall|i: int| from <= i < next ==> !is_whitespace(chars@[i]),
        decreases chars.len() - next,
    {
        next += 1;
    }
    proof {
        lemma_leading_word(chars@.skip(from as int), next - from);
    }
    next
}

/// The words of `line` as slices of it: what whitespace separates, in
/// order; none of them is empty.
pub fn split_whitespace<'a>(line: &'a str) -> (words: Vec<&'a str>)
    ensures
        str_views(words@) == words_of(line@),
{
    let chars = chars_of(line);
    let mut words: Vec<&'a str> = Vec::new();
    let mut at: usize = 0;
    let mut done: bool = false;
    proof {
        assert(line@.skip(0) == line@);
        assert(str_views(words@) + words_of(line@) == words_of(line@));
    }
    while !done
        invariant
            at <= chars.len(),
            chars@ == line@,
            done ==> words_of(line@.skip(at as int)).len() == 0,
            str_views(words@) + words_of(line@.skip(at as int)) == words_of(line@),
        decreases chars.len() - at + if done { 0int } else { 1int },
    {
        let start = skip_whitespace(&chars, at);
        let end = skip_word(&chars, start);
        let ghost rest = line@.skip(at as int);
        let ghost before = words@;
        proof {
            assert(rest.skip(start - at) == line@.skip(start as int));
        }
        if start < end {
            let word = line.substring_char(start, end);
            words.push(word);
            proof {
                assert(rest.subrange(start - at, end - at) == line@.subrange(
                    start as int,
                    end as int,
                ));
                assert(rest.skip(end - at) == line@.skip(end as int));
                assert(str_views(words@) == str_views(before).push(word@));
                assert(words_of(rest) == seq![word@] + words_of(line@.skip(end as int)));
                assert(str_views(words@) + words_of(line@.skip(end as int)) == str_views(before)
                    + words_of(rest));
            }
            at = end;
        } else {
            done = true;
        }
    }
    proof {
        assert(str_views(words@) + Seq::<Seq<char>>::empty() == str_views(words@));
    }
    words
}

/// `line` without the whitespace at its start and at its end, as a slice
/// of it.
pub fn trim<'a>(line: &'a str) -> (inner: &'a str)
    ensures
        inner@ == trimmed(line@),
{
    let chars = chars_of(line);
    let start = skip_whitespace(&chars, 0);
    let mut end: usize = chars.len();
    while end > start && char_is_whitespace(chars[end - 1])
        invariant
            start <= end <= chars.len(),
            forall|i: int| end <= i < chars.len() ==> is_whitespace(chars@[i]),
        decreases end,
    {
        end -= 1;
    }
    proof {
        let rest = line@.skip(start as int);
        assert(line@.skip(0) == line@);
        if start < chars.len() {
            assert(leading_whitespace(line@) == start);
        }
        lemma_trailing_whitespace(rest, chars.len() - end);
        assert(rest.take(rest.len() - (chars.len() - end)) == line@.subrange(
            start as int,
            end as int,
        ));
    }
    line.substring_char(start, end)
}

} // verus!
