//! Strings as sequences of characters.

use vstd::prelude::*;

verus! {

/// The characters of `s`, in order.
pub fn chars_of(s: &str) -> (out: Vec<char>)
    ensures
        out@ == s@,
{
    let mut out: Vec<char> = Vec::new();
    for c in it: s.chars()
        invariant
            out@ == it.seq().take(it.index() as int),
            it.seq() == s@,
    {
        out.push(c);
    }
    out
}

/// Whether `a` and `b` hold the same characters.
pub fn same_chars(a: &Vec<char>, b: &Vec<char>) -> (out: bool)
    ensures
        out == (a@ == b@),
{
    if a.len() != b.len() {
        return false;
    }
    let mut at: usize = 0;
    while at < a.len()
        invariant
            at <= a.len(),
            a.len() == b.len(),
            a@.take(at as int) == b@.take(at as int),
        decreases a.len() - at,
    {
        if a[at] != b[at] {
            return false;
        }
        assert(a@.take(at + 1) == a@.take(at as int).push(a@[at as int]));
        assert(b@.take(at + 1) == b@.take(at as int).push(b@[at as int]));
        at += 1;
    }
    assert(a@ == a@.take(at as int));
    assert(b@ == b@.take(at as int));
    true
}

/// Whether `a` and `b` are the same text.
pub fn same_text(a: &str, b: &str) -> (out: bool)
    ensures
        out == (a@ == b@),
{
    let left = chars_of(a);
    let right = chars_of(b);
    same_chars(&left, &right)
}

/// The texts that `strings` hold, in order.
pub open spec fn views(strings: Seq<String>) -> Seq<Seq<char>> {
    Seq::new(strings.len(), |i: int| strings[i]@)
}

/// The line without the carriage return at its end, if it has one.
pub open spec fn without_return(line: Seq<char>) -> Seq<char> {
    if line.len() > 0 && line.last() == '\r' {
        line.drop_last()
    } else {
        line
    }
}

/// The lines of `text` that end after `at`, where the first of them began at
/// `start`. A line ends at a line feed; the line feed is no part of it, nor
/// is a carriage return just before the line feed. What follows the last
/// line feed is a line unless it is empty.
pub open spec fn lines_split(text: Seq<char>, start: int, at: int) -> Seq<Seq<char>>
    decreases text.len() - at,
{
    if at >= text.len() {
        if start < text.len() {
            seq![text.subrange(start, text.len() as int)]
        } else {
            Seq::empty()
        }
    } else if text[at] == '\n' {
        seq![without_return(text.subrange(start, at))] + lines_split(text, at + 1, at + 1)
    } else {
        lines_split(text, start, at + 1)
    }
}

/// The lines of `text`.
pub open spec fn lines_of(text: Seq<char>) -> Seq<Seq<char>> {
    lines_split(text, 0, 0)
}

/// The lines of `text`, each as a string of its own.
pub fn lines(text: &str) -> (out: Vec<String>)
    ensures
        views(out@) == lines_of(text@),
{
    let chars = chars_of(text);
    let mut out: Vec<String> = Vec::new();
    let mut start: usize = 0;
    let mut at: usize = 0;
    while at < chars.len()
        invariant
            start <= at <= chars.len(),
            chars@ == text@,
            views(out@) + lines_split(text@, start as int, at as int) == lines_of(text@),
        decreases chars.len() - at,
    {
        if chars[at] == '\n' {
            let stop = if at > start && chars[at - 1] == '\r' {
                at - 1
            } else {
                at
            };
            let line = text.substring_char(start, stop).to_owned();
            let ghost whole = text@.subrange(start as int, at as int);
            assert(line@ == without_return(whole)) by {
                if at > start && chars[at - 1] == '\r' {
                    assert(whole.drop_last() == text@.subrange(start as int, stop as int));
                }
            }
            let ghost before = views(out@);
            out.push(line);
            assert(views(out@) == before + seq![without_return(whole)]);
            assert(before + (seq![without_return(whole)] + lines_split(text@, at + 1, at + 1))
                == before + seq![without_return(whole)] + lines_split(text@, at + 1, at + 1));
            start = at + 1;
        }
        at += 1;
    }
    if start < chars.len() {
        let line = text.substring_char(start, chars.len()).to_owned();
        let ghost before = views(out@);
        out.push(line);
        assert(views(out@) == before + seq![text@.subrange(start as int, text@.len() as int)]);
    } else {
        assert(views(out@) + Seq::<Seq<char>>::empty() == views(out@));
    }
    out
}

/// `needle` stands in `hay` at `at`.
pub open spec fn occurs_at(hay: Seq<char>, needle: Seq<char>, at: int) -> bool {
    &&& 0 <= at
    &&& at + needle.len() <= hay.len()
    &&& hay.subrange(at, at + needle.len()) == needle
}

/// `needle` stands somewhere in `hay`.
pub open spec fn contains(hay: Seq<char>, needle: Seq<char>) -> bool {
    exists|at: int| occurs_at(hay, needle, at)
}

fn stands_at(hay: &Vec<char>, needle: &Vec<char>, at: usize) -> (out: bool)
    requires
        at + needle.len() <= hay.len(),
    ensures
        out == occurs_at(hay@, needle@, at as int),
{
    let mut k: usize = 0;
    while k < needle.len()
        invariant
            k <= needle.len(),
            at + needle.len() <= hay.len(),
            forall|j: int| 0 <= j < k ==> hay[at + j] == needle[j],
        decreases needle.len() - k,
    {
        if hay[at + k] != needle[k] {
            assert(hay@.subrange(at as int, at + needle.len())[k as int] != needle@[k as int]);
            return false;
        }
        k += 1;
    }
    assert(hay@.subrange(at as int, at + needle.len()) =~= needle@);
    true
}

/// Whether `needle` stands somewhere in `hay`.
pub fn contains_chars(hay: &Vec<char>, needle: &Vec<char>) -> (out: bool)
    ensures
        out == contains(hay@, needle@),
{
    if needle.len() > hay.len() {
        assert forall|at: int| !occurs_at(hay@, needle@, at) by {}
        return false;
    }
    let last = hay.len() - needle.len();
    let mut at: usize = 0;
    while at < last
        invariant
            at <= last,
            last == hay.len() - needle.len(),
            forall|j: int| 0 <= j < at ==> !occurs_at(hay@, needle@, j),
        decreases last - at,
    {
        if stands_at(hay, needle, at) {
            return true;
        }
        at += 1;
    }
    let found = stands_at(hay, needle, last);
    if !found {
        assert forall|j: int| !occurs_at(hay@, needle@, j) by {}
    }
    found
}

/// Whether `needle` stands somewhere in `hay`.
pub fn contains_text(hay: &str, needle: &str) -> (out: bool)
    ensures
        out == contains(hay@, needle@),
{
    let hay = chars_of(hay);
    let needle = chars_of(needle);
    contains_chars(&hay, &needle)
}

/// What `str::to_lowercase` makes of a text.
pub uninterp spec fn lowercase(text: Seq<char>) -> Seq<char>;

/// The character is an ASCII character.
pub open spec fn is_ascii_char(c: char) -> bool {
    (c as u32) < 128
}

/// Every character of the text is an ASCII character.
pub open spec fn is_ascii_text(text: Seq<char>) -> bool {
    forall|i: int| 0 <= i < text.len() ==> is_ascii_char(#[trigger] text[i])
}

/// The small letter for a capital letter from A to Z, and any other
/// character as it is.
pub open spec fn lowered(c: char) -> char {
    if 'A' <= c && c <= 'Z' {
        ((c as u8 + 32) as u8) as char
    } else {
        c
    }
}

/// The text with each of its characters lowered.
pub open spec fn ascii_lowered(text: Seq<char>) -> Seq<char> {
    Seq::new(text.len(), |i: int| lowered(text[i]))
}

/// The text in lower case, as `str::to_lowercase` gives it. The contract
/// gives the result its name, and claims one thing more of it: that of a
/// text of ASCII characters alone, the capital letters from A to Z are made
/// small and nothing else is changed.
#[verifier::external_body]
pub(crate) fn to_lowercase(text: &str) -> (out: String)
    ensures
        out@ == lowercase(text@),
        is_ascii_text(text@) ==> out@ == ascii_lowered(text@),
{
    text.to_lowercase()
}

/// Where a needle stands in a hay, the lowered needle stands in the lowered
/// hay at the same place: to lower both loses no match.
pub proof fn lemma_lowering_keeps_matches(hay: Seq<char>, needle: Seq<char>)
    ensures
        forall|at: int|
            occurs_at(hay, needle, at) ==> occurs_at(ascii_lowered(hay), ascii_lowered(needle), at),
        contains(hay, needle) ==> contains(ascii_lowered(hay), ascii_lowered(needle)),
{
    assert forall|at: int| occurs_at(hay, needle, at) implies occurs_at(
        ascii_lowered(hay),
        ascii_lowered(needle),
        at,
    ) by {
        assert(ascii_lowered(hay).subrange(at, at + needle.len()) =~= ascii_lowered(
            hay.subrange(at, at + needle.len()),
        ));
    }
    if contains(hay, needle) {
        let at = choose|at: int| occurs_at(hay, needle, at);
        assert(occurs_at(ascii_lowered(hay), ascii_lowered(needle), at));
    }
}

/// The lines of a text of ASCII characters are of ASCII characters.
pub proof fn lemma_lines_stay_ascii(text: Seq<char>, start: int, at: int)
    requires
        is_ascii_text(text),
        0 <= start <= at,
    ensures
        forall|k: int|
            0 <= k < lines_split(text, start, at).len() ==> is_ascii_text(
                #[trigger] lines_split(text, start, at)[k],
            ),
    decreases text.len() - at,
{
    let lines = lines_split(text, start, at);
    if at >= text.len() {
        if start < text.len() {
            let line = text.subrange(start, text.len() as int);
            assert forall|i: int| 0 <= i < line.len() implies is_ascii_char(#[trigger] line[i]) by {
                assert(line[i] == text[start + i]);
            }
            assert(lines =~= seq![line]);
            assert forall|k: int| 0 <= k < lines.len() implies is_ascii_text(#[trigger] lines[k]) by {
                assert(lines[k] == line);
            }
        } else {
            assert(lines.len() == 0);
        }
    } else if text[at] == '\n' {
        lemma_lines_stay_ascii(text, at + 1, at + 1);
        let whole = text.subrange(start, at);
        let line = without_return(whole);
        assert forall|i: int| 0 <= i < line.len() implies is_ascii_char(#[trigger] line[i]) by {
            assert(line[i] == text[start + i]);
        }
        let rest = lines_split(text, at + 1, at + 1);
        assert(lines == seq![line] + rest);
        assert forall|k: int| 0 <= k < lines.len() implies is_ascii_text(#[trigger] lines[k]) by {
            if k > 0 {
                assert(lines[k] == rest[k - 1]);
            } else {
                assert(lines[k] == line);
            }
        }
    } else {
        lemma_lines_stay_ascii(text, start, at + 1);
        assert(lines == lines_split(text, start, at + 1));
    }
}

} // verus!
