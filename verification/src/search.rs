//! Line-oriented text search.

use crate::text::{
    ascii_lowered, contains, contains_text, is_ascii_text, lemma_lines_stay_ascii,
    lemma_lowering_keeps_matches, lines, lines_of, lowercase, to_lowercase, views,
};
use vstd::prelude::*;

verus! {

/// The lines among `lines` in which `query` stands, in order.
pub open spec fn matching(lines: Seq<Seq<char>>, query: Seq<char>) -> Seq<Seq<char>>
    decreases lines.len(),
{
    if lines.len() == 0 {
        Seq::empty()
    } else if contains(lines.last(), query) {
        matching(lines.drop_last(), query).push(lines.last())
    } else {
        matching(lines.drop_last(), query)
    }
}

/// The lines among `lines` in which `query` stands when both are taken in
/// lower case, in order and as they are written.
pub open spec fn matching_caseless(lines: Seq<Seq<char>>, query: Seq<char>) -> Seq<Seq<char>>
    decreases lines.len(),
{
    if lines.len() == 0 {
        Seq::empty()
    } else if contains(lowercase(lines.last()), lowercase(query)) {
        matching_caseless(lines.drop_last(), query).push(lines.last())
    } else {
        matching_caseless(lines.drop_last(), query)
    }
}

/// The lines among `lines` in which `query` stands when the capital letters
/// from A to Z of both are made small, in order and as they are written.
pub open spec fn matching_lowered(lines: Seq<Seq<char>>, query: Seq<char>) -> Seq<Seq<char>>
    decreases lines.len(),
{
    if lines.len() == 0 {
        Seq::empty()
    } else if contains(ascii_lowered(lines.last()), ascii_lowered(query)) {
        matching_lowered(lines.drop_last(), query).push(lines.last())
    } else {
        matching_lowered(lines.drop_last(), query)
    }
}

/// To ignore the case of the letters from A to Z loses no match: the lines
/// in which the query stands as it is written are among those in which it
/// stands whatever the case, and are found again among them.
pub proof fn lemma_caseless_loses_nothing(lines: Seq<Seq<char>>, query: Seq<char>)
    ensures
        matching(matching_lowered(lines, query), query) == matching(lines, query),
    decreases lines.len(),
{
    if lines.len() > 0 {
        let last = lines.last();
        let rest = lines.drop_last();
        lemma_caseless_loses_nothing(rest, query);
        lemma_lowering_keeps_matches(last, query);
        if contains(ascii_lowered(last), ascii_lowered(query)) {
            assert(matching_lowered(rest, query).push(last).drop_last() == matching_lowered(
                rest,
                query,
            ));
        }
    }
}

/// The lines of `contents` in which `query` stands.
pub fn search(query: &str, contents: &str) -> (out: Vec<String>)
    ensures
        views(out@) == matching(lines_of(contents@), query@),
{
    let all = lines(contents);
    let mut out: Vec<String> = Vec::new();
    let mut at: usize = 0;
    while at < all.len()
        invariant
            at <= all.len(),
            views(all@) == lines_of(contents@),
            views(out@) == matching(views(all@).take(at as int), query@),
        decreases all.len() - at,
    {
        assert(views(all@).take(at + 1).drop_last() == views(all@).take(at as int));
        assert(views(all@).take(at + 1).last() == all@[at as int]@);
        let ghost before = views(out@);
        if contains_text(all[at].as_str(), query) {
            out.push(all[at].clone());
            assert(views(out@) == before.push(all@[at as int]@));
        }
        at += 1;
    }
    assert(views(all@).take(at as int) == views(all@));
    out
}

/// The lines of `contents` in which `query` stands, whatever the case of
/// either. Where both are of ASCII characters alone, these are the lines in
/// which the query stands once the capital letters of both are made small.
pub fn case_insensitive_search(query: &str, contents: &str) -> (out: Vec<String>)
    ensures
        views(out@) == matching_caseless(lines_of(contents@), query@),
        is_ascii_text(query@) && is_ascii_text(contents@) ==> views(out@) == matching_lowered(
            lines_of(contents@),
            query@,
        ),
{
    let folded = to_lowercase(query);
    let all = lines(contents);
    proof {
        if is_ascii_text(contents@) {
            lemma_lines_stay_ascii(contents@, 0, 0);
        }
    }
    let ghost plain = is_ascii_text(query@) && is_ascii_text(contents@);
    let mut out: Vec<String> = Vec::new();
    let mut at: usize = 0;
    while at < all.len()
        invariant
            at <= all.len(),
            folded@ == lowercase(query@),
            plain == (is_ascii_text(query@) && is_ascii_text(contents@)),
            plain ==> folded@ == ascii_lowered(query@),
            plain ==> forall|k: int| 0 <= k < all.len() ==> is_ascii_text(#[trigger] views(all@)[k]),
            views(all@) == lines_of(contents@),
            views(out@) == matching_caseless(views(all@).take(at as int), query@),
            plain ==> views(out@) == matching_lowered(views(all@).take(at as int), query@),
        decreases all.len() - at,
    {
        assert(views(all@).take(at + 1).drop_last() == views(all@).take(at as int));
        assert(views(all@).take(at + 1).last() == all@[at as int]@);
        assert(views(all@)[at as int] == all@[at as int]@);
        let ghost before = views(out@);
        let line = to_lowercase(all[at].as_str());
        if contains_text(line.as_str(), folded.as_str()) {
            out.push(all[at].clone());
            assert(views(out@) == before.push(all@[at as int]@));
        }
        at += 1;
    }
    assert(views(all@).take(at as int) == views(all@));
    out
}

/// What to search for, where, and how.
#[derive(Clone, PartialEq, Eq, Debug)]
pub struct Config {
    pub query: String,
    pub file_path: String,
    pub ignore_case: bool,
}

impl Config {
    /// Reads the query and the file's path off a command line, the program's
    /// name first. Whether to ignore case is for the caller to say.
    pub fn build(args: &[String], ignore_case: bool) -> (out: Result<Config, &'static str>)
        ensures
            match out {
                Ok(config) => {
                    &&& args.len() >= 3
                    &&& config.query == args[1]
                    &&& config.file_path == args[2]
                    &&& config.ignore_case == ignore_case
                },
                Err(message) => args.len() < 3 && message@ == "not enough arguments"@,
            },
    {
        if args.len() < 3 {
            return Err("not enough arguments");
        }
        Ok(Config { query: args[1].clone(), file_path: args[2].clone(), ignore_case })
    }
}

/// The lines of `content` that `config` asks for.
pub fn run(config: &Config, content: &str) -> (out: Vec<String>)
    ensures
        views(out@) == if config.ignore_case {
            matching_caseless(lines_of(content@), config.query@)
        } else {
            matching(lines_of(content@), config.query@)
        },
        config.ignore_case && is_ascii_text(config.query@) && is_ascii_text(content@) ==> views(
            out@,
        ) == matching_lowered(lines_of(content@), config.query@),
{
    if config.ignore_case {
        case_insensitive_search(config.query.as_str(), content)
    } else {
        search(config.query.as_str(), content)
    }
}

} // verus!
