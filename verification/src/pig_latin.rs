//! Pig latin: a word that starts with a vowel gets `-hay` at its end; of
//! any other word the first letter moves to the end, behind a hyphen and
//! before `ay`.

use crate::text::{lowercase_of, to_lowercase};
use vstd::prelude::*;
use vstd::string::{StrSliceExecFns, StringExecFns};

verus! {

/// One of the five lowercase vowels.
pub open spec fn is_vowel(c: char) -> bool {
    c == 'a' || c == 'e' || c == 'i' || c == 'o' || c == 'u'
}

/// A character that takes a single byte in UTF-8.
pub open spec fn is_single_byte(c: char) -> bool {
    (c as u32) < 0x80
}

/// The pig latin form of a word.
pub open spec fn pig_latin_of(word: Seq<char>) -> Seq<char>
    recommends
        word.len() > 0,
{
    if is_vowel(word[0]) {
        word + seq!['-', 'h', 'a', 'y']
    } else {
        word.skip(1) + seq!['-'] + word.take(1) + seq!['a', 'y']
    }
}

/// The test that a character is no line feed.
pub open spec fn not_line_feed() -> spec_fn(char) -> bool {
    |c: char| c != '\n'
}

/// Whether the word's first character is a vowel.
pub fn starts_with_vocal(string_to_convert: &str) -> (vocal: bool)
    requires
        string_to_convert@.len() > 0,
    ensures
        vocal == is_vowel(string_to_convert@[0]),
{
    let starting_char = string_to_convert.get_char(0);
    starting_char == 'a' || starting_char == 'e' || starting_char == 'i' || starting_char == 'o'
        || starting_char == 'u'
}

/// The pig latin form of a word. A word that starts with no vowel is cut
/// behind its first byte, so its first character has to be that byte.
pub fn convert_string(string_to_convert: &str) -> (converted: String)
    requires
        string_to_convert@.len() > 0,
        is_vowel(string_to_convert@[0]) || is_single_byte(string_to_convert@[0]),
    ensures
        converted@ == pig_latin_of(string_to_convert@),
{
    proof {
        reveal_strlit("-hay");
        reveal_strlit("-");
        reveal_strlit("ay");
    }
    if starts_with_vocal(string_to_convert) {
        let mut converted = String::from_str(string_to_convert);
        converted.append("-hay");
        assert(converted@ == string_to_convert@ + seq!['-', 'h', 'a', 'y']);
        converted
    } else {
        let length = string_to_convert.unicode_len();
        let head = string_to_convert.substring_char(0, 1);
        let tail = string_to_convert.substring_char(1, length);
        let mut converted = String::from_str(tail);
        converted.append("-");
        converted.append(head);
        converted.append("ay");
        assert(converted@ == string_to_convert@.skip(1) + seq!['-'] + string_to_convert@.take(1)
            + seq!['a', 'y']);
        converted
    }
}

/// A line as it is handed to `convert_string`: without its line feeds, and
/// in lowercase.
pub fn normalize(input: &str) -> (word: String)
    ensures
        word@ == lowercase_of(input@.filter(not_line_feed())),
{
    let mut kept = String::new();
    for c in it: input.chars()
        invariant
            it.seq() == input@,
            kept@ == input@.take(it.index()).filter(not_line_feed()),
    {
        proof {
            reveal(Seq::filter);
            assert(input@.take(it.index() + 1).drop_last() == input@.take(it.index()));
        }
        if c != '\n' {
            kept.push(c);
        }
    }
    proof {
        assert(input@.take(input@.len() as int) == input@);
    }
    to_lowercase(kept.as_str())
}

} // verus!
