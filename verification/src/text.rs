//! Text as sequences of characters: conversion from and to strings,
//! trimming, and splitting into lines.

use vstd::prelude::*;
use vstd::utf8::{encode_utf8, valid_utf8};

verus! {

/// Whether a character carries the Unicode `White_Space` property.
pub uninterp spec fn is_white_space(c: char) -> bool;

/// Calls `char::is_whitespace`: the answer is the character's Unicode
/// `White_Space` property, which this module refers to as
/// [`is_white_space`].
#[verifier::external_body]
pub(crate) fn char_is_whitespace(c: char) -> (b: bool)
    ensures
        b == is_white_space(c),
{
    c.is_whitespace()
}

/// `String::push` appends one character at the end of the string.
pub assume_specification[ String::push ](s: &mut String, c: char)
    ensures
        final(s)@ == old(s)@.push(c),
;

/// What `String::from_utf8_lossy` makes of `bytes`: their text, with every
/// ill-formed part replaced by U+FFFD.
pub uninterp spec fn utf8_lossy(bytes: Seq<u8>) -> Seq<char>;

/// Calls `String::from_utf8`: the text that `bytes` encode, where they are
/// well-formed UTF-8, and nothing otherwise.
#[verifier::external_body]
pub(crate) fn utf8_text(bytes: Vec<u8>) -> (r: Option<String>)
    ensures
        r is Some == valid_utf8(bytes@),
        r matches Some(s) ==> encode_utf8(s@) == bytes@,
{
    String::from_utf8(bytes).ok()
}

/// Calls `String::from_utf8_lossy`, which never fails.
#[verifier::external_body]
pub(crate) fn utf8_lossy_text(bytes: &Vec<u8>) -> (r: String)
    ensures
        r@ == utf8_lossy(bytes@),
{
    String::from_utf8_lossy(bytes).into_owned()
}

/// An optional string as an optional sequence of characters.
pub open spec fn text_of(s: Option<String>) -> Option<Seq<char>> {
    match s {
        Some(s) => Some(s@),
        None => None,
    }
}

/// The characters of a string, in order.
pub fn chars_of(s: &str) -> (v: Vec<char>)
    ensures
        v@ == s@,
{
    broadcast use vstd::string::group_string_axioms;

    let mut v: Vec<char> = Vec::new();
    for c in it: s.chars()
        invariant
            it.seq() == s@,
            v@ == s@.take(it.index()),
    {
        assert(s@.take(it.index() + 1) == s@.take(it.index()).push(c));
        v.push(c);
    }
    assert(s@.take(s@.len() as int) == s@);
    v
}

/// The string that holds exactly the characters of `chars`.
pub fn string_of(chars: &Vec<char>) -> (s: String)
    ensures
        s@ == chars@,
{
    let mut s = String::new();
    let mut i: usize = 0;
    while i < chars.len()
        invariant
            i <= chars.len(),
            s@ == chars@.take(i as int),
        decreases chars.len() - i,
    {
        assert(chars@.take(i + 1) == chars@.take(i as int).push(chars@[i as int]));
        s.push(chars[i]);
        i += 1;
    }
    assert(chars@.take(chars@.len() as int) == chars@);
    s
}

/// `s` without its leading white space.
pub open spec fn trim_start(s: Seq<char>) -> Seq<char>
    decreases s.len(),
{
    if s.len() > 0 && is_white_space(s[0]) {
        trim_start(s.drop_first())
    } else {
        s
    }
}

/// `s` without its trailing white space.
pub open spec fn trim_end(s: Seq<char>) -> Seq<char>
    decreases s.len(),
{
    if s.len() > 0 && is_white_space(s.last()) {
        trim_end(s.drop_last())
    } else {
        s
    }
}

/// `s` without leading and trailing white space.
pub open spec fn trim(s: Seq<char>) -> Seq<char> {
    trim_end(trim_start(s))
}

/// `s` without the line feeds at its end.
pub open spec fn strip_line_feeds(s: Seq<char>) -> Seq<char>
    decreases s.len(),
{
    if s.len() > 0 && s.last() == '\n' {
        strip_line_feeds(s.drop_last())
    } else {
        s
    }
}

/// The lines of `s`: the pieces between its line feeds. There is always at
/// least one line, and a text that ends in a line feed ends in an empty line.
pub open spec fn lines_of(s: Seq<char>) -> Seq<Seq<char>>
    decreases s.len(),
{
    if s.len() == 0 {
        seq![Seq::<char>::empty()]
    } else {
        let before = lines_of(s.drop_last());
        if s.last() == '\n' {
            before.push(Seq::<char>::empty())
        } else {
            before.drop_last().push(before.last().push(s.last()))
        }
    }
}

/// The text whose lines are `lines`: the lines in order, with one line feed
/// between each two.
pub open spec fn join_lines(lines: Seq<Seq<char>>) -> Seq<char>
    decreases lines.len(),
{
    if lines.len() == 0 {
        Seq::empty()
    } else if lines.len() == 1 {
        lines[0]
    } else {
        join_lines(lines.drop_last()) + seq!['\n'] + lines.last()
    }
}

/// Splitting loses nothing and leaves no line feed behind: a text has at
/// least one line, no line holds a line feed, and the lines joined by line
/// feeds are the text again.
pub proof fn lemma_lines_of(s: Seq<char>)
    ensures
        lines_of(s).len() >= 1,
        forall|i: int, j: int|
            0 <= i < lines_of(s).len() && 0 <= j < lines_of(s)[i].len() ==> lines_of(s)[i][j]
                != '\n',
        join_lines(lines_of(s)) == s,
    decreases s.len(),
{
    if s.len() == 0 {
        assert(join_lines(lines_of(s)) =~= s);
    } else {
        let before = lines_of(s.drop_last());
        lemma_lines_of(s.drop_last());
        let lines = lines_of(s);
        if s.last() == '\n' {
            assert(lines.drop_last() =~= before);
            assert(join_lines(lines) =~= s);
        } else {
            let grown = before.last().push(s.last());
            assert(lines.last() == grown);
            if before.len() > 1 {
                assert(lines.drop_last() =~= before.drop_last());
                assert(join_lines(lines) =~= join_lines(before).push(s.last()));
            } else {
                assert(join_lines(lines) =~= join_lines(before).push(s.last()));
            }
            assert(s.drop_last().push(s.last()) =~= s);
        }
    }
}

/// Trimming cuts white space off both ends and nothing else: the result is
/// a part of the text, all that lies outside it is white space, and it
/// neither begins nor ends with white space.
pub proof fn lemma_trim(s: Seq<char>)
    ensures
        exists|from: int, to: int|
            {
                &&& 0 <= from <= to <= s.len()
                &&& #[trigger] s.subrange(from, to) == trim(s)
                &&& forall|i: int| 0 <= i < from || to <= i < s.len() ==> is_white_space(s[i])
            },
        trim(s).len() > 0 ==> !is_white_space(trim(s).first()) && !is_white_space(trim(s).last()),
{
    let from = lemma_trim_start(s);
    let to = lemma_trim_end(s.skip(from));
    assert(s.skip(from).take(to) == s.subrange(from, from + to));
    assert forall|i: int| 0 <= i < from || from + to <= i < s.len() implies is_white_space(
        s[i],
    ) by {
        if i >= from {
            assert(s[i] == s.skip(from)[i - from]);
        }
    }
    if trim(s).len() > 0 {
        assert(trim(s).first() == s.skip(from)[0]);
    }
}

/// Where the leading white space of `s` ends.
proof fn lemma_trim_start(s: Seq<char>) -> (from: int)
    ensures
        0 <= from <= s.len(),
        trim_start(s) == s.skip(from),
        forall|i: int| 0 <= i < from ==> is_white_space(s[i]),
        from < s.len() ==> !is_white_space(s[from]),
    decreases s.len(),
{
    if s.len() > 0 && is_white_space(s[0]) {
        let rest = lemma_trim_start(s.drop_first());
        assert(s.drop_first().skip(rest) == s.skip(rest + 1));
        assert forall|i: int| 0 <= i < rest + 1 implies is_white_space(s[i]) by {
            if i > 0 {
                assert(s[i] == s.drop_first()[i - 1]);
            }
        }
        rest + 1
    } else {
        assert(s.skip(0) == s);
        0
    }
}

/// Where the trailing white space of `s` begins.
proof fn lemma_trim_end(s: Seq<char>) -> (to: int)
    ensures
        0 <= to <= s.len(),
        trim_end(s) == s.take(to),
        forall|i: int| to <= i < s.len() ==> is_white_space(s[i]),
        to > 0 ==> !is_white_space(s[to - 1]),
    decreases s.len(),
{
    if s.len() > 0 && is_white_space(s.last()) {
        let to = lemma_trim_end(s.drop_last());
        assert(s.drop_last().take(to) == s.take(to));
        assert forall|i: int| to <= i < s.len() implies is_white_space(s[i]) by {
            if i < s.len() - 1 {
                assert(s[i] == s.drop_last()[i]);
            }
        }
        if to > 0 {
            assert(s[to - 1] == s.drop_last()[to - 1]);
        }
        to
    } else {
        assert(s.take(s.len() as int) == s);
        s.len() as int
    }
}

/// The views of a vector of character vectors, element by element.
pub open spec fn line_views(lines: Seq<Vec<char>>) -> Seq<Seq<char>> {
    Seq::new(lines.len(), |i: int| lines[i]@)
}

/// A copy of `chars[from..to]`.
pub fn slice_of(chars: &Vec<char>, from: usize, to: usize) -> (r: Vec<char>)
    requires
        from <= to <= chars.len(),
    ensures
        r@ == chars@.subrange(from as int, to as int),
{
    let mut r: Vec<char> = Vec::new();
    let mut i: usize = from;
    while i < to
        invariant
            from <= i <= to <= chars.len(),
            r@ == chars@.subrange(from as int, i as int),
        decreases to - i,
    {
        assert(chars@.subrange(from as int, i + 1) == chars@.subrange(from as int, i as int).push(
            chars@[i as int],
        ));
        r.push(chars[i]);
        i += 1;
    }
    r
}

/// Removes leading and trailing white space.
pub fn trimmed(line: &Vec<char>) -> (r: Vec<char>)
    ensures
        r@ == trim(line@),
{
    let n = line.len();
    let mut start: usize = 0;
    assert(line@.skip(0) == line@);
    while start < n && char_is_whitespace(line[start])
        invariant
            n == line.len(),
            start <= n,
            trim_start(line@) == trim_start(line@.skip(start as int)),
        decreases n - start,
    {
        assert(line@.skip(start as int).drop_first() == line@.skip(start + 1));
        start += 1;
    }
    let mut end: usize = n;
    assert(line@.skip(start as int) == line@.subrange(start as int, end as int));
    while end > start && char_is_whitespace(line[end - 1])
        invariant
            n == line.len(),
            start <= end <= n,
            trim(line@) == trim_end(line@.subrange(start as int, end as int)),
        decreases end,
    {
        assert(line@.subrange(start as int, end as int).drop_last() == line@.subrange(
            start as int,
            end - 1,
        ));
        end -= 1;
    }
    slice_of(line, start, end)
}

/// Removes every line feed at the end of `text`.
pub fn without_trailing_line_feeds(text: &Vec<char>) -> (r: Vec<char>)
    ensures
        r@ == strip_line_feeds(text@),
{
    let mut end: usize = text.len();
    assert(text@ == text@.take(end as int));
    while end > 0 && text[end - 1] == '\n'
        invariant
            end <= text.len(),
            strip_line_feeds(text@) == strip_line_feeds(text@.take(end as int)),
        decreases end,
    {
        assert(text@.take(end as int).drop_last() == text@.take(end - 1));
        end -= 1;
    }
    assert(text@.take(end as int) == text@.subrange(0, end as int));
    slice_of(text, 0, end)
}

/// Splits a text at its line feeds.
pub fn split_lines(text: &Vec<char>) -> (lines: Vec<Vec<char>>)
    ensures
        line_views(lines@) == lines_of(text@),
{
    let mut lines: Vec<Vec<char>> = Vec::new();
    let mut current: Vec<char> = Vec::new();
    let mut i: usize = 0;
    assert(line_views(lines@).push(current@) =~= lines_of(text@.take(0)));
    while i < text.len()
        invariant
            i <= text.len(),
            line_views(lines@).push(current@) == lines_of(text@.take(i as int)),
        decreases text.len() - i,
    {
        let c = text[i];
        let ghost before = line_views(lines@).push(current@);
        assert(text@.take(i + 1).drop_last() == text@.take(i as int));
        if c == '\n' {
            lines.push(current);
            current = Vec::new();
            assert(line_views(lines@).push(current@) =~= before.push(Seq::<char>::empty()));
        } else {
            current.push(c);
            assert(line_views(lines@).push(current@) =~= before.drop_last().push(
                before.last().push(c),
            ));
        }
        i += 1;
    }
    assert(text@.take(text@.len() as int) == text@);
    let ghost before = line_views(lines@).push(current@);
    lines.push(current);
    assert(line_views(lines@) =~= before);
    lines
}

} // verus!
