//! Line search: which lines of a text contain a query, with or without
//! regard to case, and the configuration that chooses between the two.

use crate::text::{
    contains, is_substring, lines, lines_of, lowercase_of, str_views, string_views, to_lowercase,
};
use vstd::prelude::*;
use vstd::string::StringExecFns;

verus! {

/// What to search for, where, and whether case matters.
pub struct Config {
    pub query: String,
    pub file_path: String,
    pub ignore_case: bool,
}

/// The lines among `lines` whose key contains `needle`; the key of a line
/// stands at the line's index in `keys`.
pub open spec fn selected(
    lines: Seq<Seq<char>>,
    keys: Seq<Seq<char>>,
    needle: Seq<char>,
) -> Seq<Seq<char>>
    decreases lines.len(),
{
    if lines.len() == 0 || keys.len() != lines.len() {
        Seq::empty()
    } else {
        let before = selected(lines.drop_last(), keys.drop_last(), needle);
        if is_substring(needle, keys.last()) {
            before.push(lines.last())
        } else {
            before
        }
    }
}

/// The test that a line contains `query`.
pub open spec fn holds_query(query: Seq<char>) -> spec_fn(Seq<char>) -> bool {
    |line: Seq<char>| is_substring(query, line)
}

/// The test that the lowercase form of a line contains the lowercase form
/// of `query`.
pub open spec fn holds_query_ignoring_case(query: Seq<char>) -> spec_fn(Seq<char>) -> bool {
    |line: Seq<char>| is_substring(lowercase_of(query), lowercase_of(line))
}

/// The lowercase form of each line.
pub open spec fn lowercase_each(lines: Seq<Seq<char>>) -> Seq<Seq<char>> {
    lines.map_values(|line: Seq<char>| lowercase_of(line))
}

/// The lines of `contents` that contain `query`, in order.
pub open spec fn matches_of(query: Seq<char>, contents: Seq<char>) -> Seq<Seq<char>> {
    lines_of(contents).filter(holds_query(query))
}

/// The lines of `contents` whose lowercase form contains the lowercase form
/// of `query`, in order.
pub open spec fn matches_ignoring_case_of(query: Seq<char>, contents: Seq<char>) -> Seq<
    Seq<char>,
> {
    lines_of(contents).filter(holds_query_ignoring_case(query))
}

/// Selecting lines by their lowercase forms against a lowercase query is
/// filtering them without regard to case.
proof fn lemma_selected_by_lowercase(lines: Seq<Seq<char>>, query: Seq<char>)
    ensures
        selected(lines, lowercase_each(lines), lowercase_of(query)) == lines.filter(
            holds_query_ignoring_case(query),
        ),
    decreases lines.len(),
{
    reveal(Seq::filter);
    if lines.len() > 0 {
        assert(lowercase_each(lines).drop_last() == lowercase_each(lines.drop_last()));
        lemma_selected_by_lowercase(lines.drop_last(), query);
    }
}

impl Config {
    /// Reads a configuration from a program's arguments: the program's name,
    /// the query, the file's path; further arguments are ignored.
    /// `ignore_case` is taken as it is given.
    pub fn build(args: Vec<String>, ignore_case: bool) -> (built: Result<Config, &'static str>)
        ensures
            args.len() < 2 ==> built is Err && built->Err_0@ == "Didn't get a query string"@,
            args.len() == 2 ==> built is Err && built->Err_0@ == "Didn't get a file path"@,
            args.len() >= 3 ==> built is Ok && built->Ok_0.query@ == args[1]@
                && built->Ok_0.file_path@ == args[2]@ && built->Ok_0.ignore_case == ignore_case,
    {
        if args.len() < 2 {
            return Err("Didn't get a query string");
        }
        if args.len() < 3 {
            return Err("Didn't get a file path");
        }
        let query = args[1].clone();
        let file_path = args[2].clone();
        Ok(Config { query, file_path, ignore_case })
    }
}

/// The lines of `lines` whose key contains `needle`, in order. The key of
/// `lines[i]` is `keys[i]`.
pub fn select_lines<'a>(lines: &Vec<&'a str>, keys: &Vec<String>, needle: &str) -> (results: Vec<
    &'a str,
>)
    requires
        lines.len() == keys.len(),
    ensures
        str_views(results@) == selected(str_views(lines@), string_views(keys@), needle@),
{
    let mut results: Vec<&'a str> = Vec::new();
    let mut i: usize = 0;
    while i < lines.len()
        invariant
            i <= lines.len(),
            lines.len() == keys.len(),
            str_views(results@) == selected(
                str_views(lines@).take(i as int),
                string_views(keys@).take(i as int),
                needle@,
            ),
        decreases lines.len() - i,
    {
        let line: &'a str = lines[i];
        let ghost before = results@;
        proof {
            let seen = str_views(lines@).take(i as int + 1);
            let seen_keys = string_views(keys@).take(i as int + 1);
            assert(seen.drop_last() == str_views(lines@).take(i as int));
            assert(seen_keys.drop_last() == string_views(keys@).take(i as int));
        }
        if contains(keys[i].as_str(), needle) {
            results.push(line);
            assert(str_views(results@) == str_views(before).push(line@));
        }
        i += 1;
    }
    proof {
        assert(str_views(lines@).take(lines.len() as int) == str_views(lines@));
        assert(string_views(keys@).take(keys.len() as int) == string_views(keys@));
    }
    results
}

/// The lines of `contents` that contain `query`, in the order in which they
/// stand in `contents`.
pub fn search<'a>(query: &str, contents: &'a str) -> (results: Vec<&'a str>)
    ensures
        str_views(results@) == matches_of(query@, contents@),
{
    let all = lines(contents);
    let mut results: Vec<&'a str> = Vec::new();
    let mut i: usize = 0;
    while i < all.len()
        invariant
            i <= all.len(),
            str_views(results@) == str_views(all@).take(i as int).filter(holds_query(query@)),
        decreases all.len() - i,
    {
        let line: &'a str = all[i];
        let ghost before = results@;
        proof {
            reveal(Seq::filter);
            assert(str_views(all@).take(i as int + 1).drop_last() == str_views(all@).take(
                i as int,
            ));
        }
        if contains(line, query) {
            results.push(line);
            assert(str_views(results@) == str_views(before).push(line@));
        }
        i += 1;
    }
    proof {
        assert(str_views(all@).take(all.len() as int) == str_views(all@));
    }
    results
}

/// The lines of `contents` that contain `query` when case is ignored: both
/// the query and each line are compared in their lowercase forms.
pub fn search_case_insensitive<'a>(query: &str, contents: &'a str) -> (results: Vec<&'a str>)
    ensures
        str_views(results@) == matches_ignoring_case_of(query@, contents@),
{
    let lowered = to_lowercase(query);
    let all = lines(contents);
    let mut keys: Vec<String> = Vec::new();
    let mut i: usize = 0;
    while i < all.len()
        invariant
            i <= all.len(),
            string_views(keys@) == lowercase_each(str_views(all@).take(i as int)),
        decreases all.len() - i,
    {
        let ghost before = keys@;
        let key = to_lowercase(all[i]);
        keys.push(key);
        proof {
            let seen = str_views(all@).take(i as int);
            assert(str_views(all@).take(i as int + 1) == seen.push(all[i as int]@));
            assert(lowercase_each(seen.push(all[i as int]@)) == lowercase_each(seen).push(
                lowercase_of(all[i as int]@),
            ));
            assert(string_views(keys@) == string_views(before).push(key@));
        }
        i += 1;
    }
    proof {
        assert(str_views(all@).take(all.len() as int) == str_views(all@));
        lemma_selected_by_lowercase(str_views(all@), query@);
    }
    select_lines(&all, &keys, lowered.as_str())
}

/// The lines that a search under `config` reports for a file that holds
/// `contents`: those that contain the query, with or without regard to case
/// as `config.ignore_case` says.
pub fn run<'a>(config: &Config, contents: &'a str) -> (results: Vec<&'a str>)
    ensures
        str_views(results@) == if config.ignore_case {
            matches_ignoring_case_of(config.query@, contents@)
        } else {
            matches_of(config.query@, contents@)
        },
{
    if config.ignore_case {
        search_case_insensitive(config.query.as_str(), contents)
    } else {
        search(config.query.as_str(), contents)
    }
}

} // verus!
