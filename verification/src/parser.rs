//! The annotation parser: which shell command governs which key.

use crate::pattern::{captured_groups, compiles, group_text, pattern_compiles, search, take_group};
use crate::text::{
    chars_of, line_views, lines_of, slice_of, split_lines, string_of, text_of, trim, trimmed,
};
use vstd::prelude::*;

verus! {

/// The pattern of a directive line, applied to the trimmed line. Its first
/// group is the command.
pub const DIRECTIVE_PATTERN: &'static str = "^\\s*#\\s*shell:\\s*(.+)$";

/// The pattern of a key-bearing line, applied to the trimmed line. Its first
/// group is the key.
pub const KEY_PATTERN: &'static str = "^\\s*([^:=\\s]+)\\s*[:=]";

/// A shell command and the key whose value it supplies.
#[derive(Debug, Clone, PartialEq, Eq)]
pub struct CommandMapping {
    pub key: String,
    pub command: String,
}

/// A [`CommandMapping`] as plain sequences of characters.
pub ghost struct MappingView {
    pub key: Seq<char>,
    pub command: Seq<char>,
}

impl View for CommandMapping {
    type V = MappingView;

    open spec fn view(&self) -> MappingView {
        MappingView { key: self.key@, command: self.command@ }
    }
}

/// Why parsing could not be done.
#[derive(Debug, Clone, Copy, PartialEq, Eq)]
pub enum ParseError {
    /// One of the two fixed patterns was not accepted by the pattern engine.
    InvalidPattern,
}

/// The views of a vector of mappings, element by element.
pub open spec fn mapping_views(mappings: Seq<CommandMapping>) -> Seq<MappingView> {
    Seq::new(mappings.len(), |i: int| mappings[i]@)
}

/// Both fixed patterns are accepted by the pattern engine.
pub open spec fn patterns_compile() -> bool {
    pattern_compiles(DIRECTIVE_PATTERN@) && pattern_compiles(KEY_PATTERN@)
}

/// The command in the outcome of matching the directive pattern: the first
/// group, trimmed, unless nothing is left of it.
pub open spec fn command_in(found: Option<Seq<Option<Seq<char>>>>) -> Option<Seq<char>> {
    match group_text(found, 1) {
        Some(c) => if trim(c).len() > 0 {
            Some(trim(c))
        } else {
            None
        },
        None => None,
    }
}

/// The line is a directive, whatever its command.
pub open spec fn is_directive(line: Seq<char>) -> bool {
    captured_groups(DIRECTIVE_PATTERN@, trim(line)) is Some
}

/// The command that a line declares, if it is a directive with a command.
pub open spec fn command_of(line: Seq<char>) -> Option<Seq<char>> {
    command_in(captured_groups(DIRECTIVE_PATTERN@, trim(line)))
}

/// The line holds nothing but white space.
pub open spec fn is_blank(line: Seq<char>) -> bool {
    trim(line).len() == 0
}

/// The first character of the line that is no white space is `#`.
pub open spec fn is_comment(line: Seq<char>) -> bool {
    trim(line).len() > 0 && trim(line)[0] == '#'
}

/// The key that a line bears: none on a blank line or a comment, else the
/// first group of the key pattern.
pub open spec fn key_of(line: Seq<char>) -> Option<Seq<char>> {
    if is_blank(line) || is_comment(line) {
        None
    } else {
        group_text(captured_groups(KEY_PATTERN@, trim(line)), 1)
    }
}

/// The key of the first key-bearing line at or after index `from`.
pub open spec fn next_key(lines: Seq<Seq<char>>, from: int) -> Option<Seq<char>>
    decreases lines.len() - from,
{
    if from < 0 || from >= lines.len() {
        None
    } else if key_of(lines[from]) is Some {
        key_of(lines[from])
    } else {
        next_key(lines, from + 1)
    }
}

/// The mapping that line `i` gives rise to: its command, bound to the key
/// of the nearest key-bearing line after it.
pub open spec fn mapping_at(lines: Seq<Seq<char>>, i: int) -> Option<MappingView> {
    match (command_of(lines[i]), next_key(lines, i + 1)) {
        (Some(command), Some(key)) => Some(MappingView { key, command }),
        _ => None,
    }
}

/// The mappings that the first `n` lines give rise to, in the order of their
/// directives.
pub open spec fn mappings_upto(lines: Seq<Seq<char>>, n: int) -> Seq<MappingView>
    decreases n,
{
    if n <= 0 {
        Seq::empty()
    } else {
        match mapping_at(lines, n - 1) {
            Some(m) => mappings_upto(lines, n - 1).push(m),
            None => mappings_upto(lines, n - 1),
        }
    }
}

/// The mappings of a whole text.
pub open spec fn parsed(content: Seq<char>) -> Seq<MappingView> {
    mappings_upto(lines_of(content), lines_of(content).len() as int)
}

/// The value on a key-bearing line, given the trimmed line and the outcome
/// of matching the key pattern on it: what follows the match, trimmed.
pub open spec fn value_after(stripped: Seq<char>, found: Option<Seq<Option<Seq<char>>>>) -> Seq<
    char,
> {
    match group_text(found, 0) {
        Some(whole) => if whole.len() <= stripped.len() {
            trim(stripped.skip(whole.len() as int))
        } else {
            Seq::empty()
        },
        None => Seq::empty(),
    }
}

/// The value that a key-bearing line gives to its key.
pub open spec fn value_of(line: Seq<char>) -> Seq<char> {
    value_after(trim(line), captured_groups(KEY_PATTERN@, trim(line)))
}

/// The value of `key` on the first line at or after `from` that bears this
/// key.
pub open spec fn value_at(lines: Seq<Seq<char>>, key: Seq<char>, from: int) -> Option<Seq<char>>
    decreases lines.len() - from,
{
    if from < 0 || from >= lines.len() {
        None
    } else if key_of(lines[from]) == Some(key) {
        Some(value_of(lines[from]))
    } else {
        value_at(lines, key, from + 1)
    }
}

/// The value that a text holds for `key`, if any of its lines bears the key.
pub open spec fn stored_value(content: Seq<char>, key: Seq<char>) -> Option<Seq<char>> {
    value_at(lines_of(content), key, 0)
}

/// The command of a directive line is empty: its first group is missing or
/// holds nothing but white space.
pub open spec fn has_empty_command(line: Seq<char>) -> bool {
    is_directive(line) && match group_text(captured_groups(DIRECTIVE_PATTERN@, trim(line)), 1) {
        Some(c) => trim(c).len() == 0,
        None => true,
    }
}

/// Line `j` is the nearest key-bearing line after line `i`.
pub open spec fn is_nearest_key_line(lines: Seq<Seq<char>>, i: int, j: int) -> bool {
    &&& i < j < lines.len()
    &&& key_of(lines[j]) is Some
    &&& forall|t: int| i < t < j ==> key_of(#[trigger] lines[t]) is None
}

/// A directive with an empty command gives no mapping: its line adds
/// nothing to the mappings of the text.
pub proof fn lemma_empty_command_gives_no_mapping(content: Seq<char>, i: int)
    requires
        0 <= i < lines_of(content).len(),
        has_empty_command(lines_of(content)[i]),
    ensures
        mapping_at(lines_of(content), i) is None,
        mappings_upto(lines_of(content), i + 1) == mappings_upto(lines_of(content), i),
{
}

/// Where no line from `from` on bears a key, there is no next key.
pub proof fn lemma_no_key_line_no_key(lines: Seq<Seq<char>>, from: int)
    requires
        forall|j: int| from <= j < lines.len() && 0 <= j ==> key_of(#[trigger] lines[j]) is None,
    ensures
        next_key(lines, from) is None,
    decreases lines.len() - from,
{
    if 0 <= from < lines.len() {
        lemma_no_key_line_no_key(lines, from + 1);
    }
}

/// A directive that no key-bearing line follows gives no mapping. This
/// holds in particular of a directive on the last line of the text.
pub proof fn lemma_directive_without_key_gives_no_mapping(content: Seq<char>, i: int)
    requires
        0 <= i < lines_of(content).len(),
        forall|j: int|
            i < j < lines_of(content).len() ==> key_of(#[trigger] lines_of(content)[j]) is None,
    ensures
        mapping_at(lines_of(content), i) is None,
        mappings_upto(lines_of(content), i + 1) == mappings_upto(lines_of(content), i),
{
    lemma_no_key_line_no_key(lines_of(content), i + 1);
}

/// The next key at or after `from` is the key of the first key-bearing line
/// there, and there is none exactly where no such line exists.
pub proof fn lemma_next_key_is_nearest(lines: Seq<Seq<char>>, from: int)
    requires
        0 <= from,
    ensures
        match next_key(lines, from) {
            Some(key) => exists|j: int|
                is_nearest_key_line(lines, from - 1, j) && key_of(lines[j]) == Some(key),
            None => forall|j: int| from <= j < lines.len() ==> key_of(#[trigger] lines[j]) is None,
        },
    decreases lines.len() - from,
{
    if from < lines.len() {
        if key_of(lines[from]) is Some {
            assert(is_nearest_key_line(lines, from - 1, from));
        } else {
            lemma_next_key_is_nearest(lines, from + 1);
            if let Some(key) = next_key(lines, from + 1) {
                let j = choose|j: int|
                    is_nearest_key_line(lines, from, j) && key_of(lines[j]) == Some(key);
                assert(is_nearest_key_line(lines, from - 1, j));
            }
        }
    }
}

/// The key of a mapping is that of the nearest key-bearing line after its
/// directive: no blank line, comment or other line without a key that lies
/// between the two changes it.
pub proof fn lemma_key_is_nearest_following(content: Seq<char>, i: int)
    requires
        0 <= i < lines_of(content).len(),
    ensures
        mapping_at(lines_of(content), i) matches Some(m) ==> exists|j: int|
            is_nearest_key_line(lines_of(content), i, j) && key_of(lines_of(content)[j]) == Some(
                m.key,
            ),
        forall|j: int|
            is_nearest_key_line(lines_of(content), i, j) ==> mapping_at(lines_of(content), i)
                == match command_of(lines_of(content)[i]) {
                Some(command) => Some(
                    MappingView { key: key_of(lines_of(content)[j])->0, command },
                ),
                None => None,
            },
{
    let lines = lines_of(content);
    lemma_next_key_is_nearest(lines, i + 1);
    assert forall|j: int| is_nearest_key_line(lines, i, j) implies mapping_at(lines, i)
        == match command_of(lines[i]) {
        Some(command) => Some(MappingView { key: key_of(lines[j])->0, command }),
        None => None,
    } by {
        match next_key(lines, i + 1) {
            Some(key) => {
                let k = choose|k: int|
                    is_nearest_key_line(lines, i, k) && key_of(lines[k]) == Some(key);
                if k < j {
                    assert(key_of(lines[k]) is None);
                }
                if j < k {
                    assert(key_of(lines[j]) is None);
                }
            },
            None => {
                assert(key_of(lines[j]) is None);
            },
        }
    }
}

/// Reads the command out of the outcome of matching the directive pattern.
pub fn command_from(found: &Option<Vec<Option<String>>>) -> (r: Option<String>)
    ensures
        text_of(r) == command_in(crate::pattern::found_view(*found)),
{
    match take_group(found, 1) {
        Some(raw) => {
            let command = trimmed(&chars_of(raw.as_str()));
            if command.len() == 0 {
                None
            } else {
                Some(string_of(&command))
            }
        },
        None => None,
    }
}

/// The key of the first key-bearing line at or after `start_idx`. Blank
/// lines and comments bear no key.
pub fn find_next_key(lines: &Vec<Vec<char>>, start_idx: usize) -> (r: Result<
    Option<String>,
    ParseError,
>)
    ensures
        match r {
            Ok(key) => pattern_compiles(KEY_PATTERN@) && text_of(key) == next_key(
                line_views(lines@),
                start_idx as int,
            ),
            Err(e) => !pattern_compiles(KEY_PATTERN@) && e == ParseError::InvalidPattern,
        },
{
    if !compiles(KEY_PATTERN) {
        return Err(ParseError::InvalidPattern);
    }
    let mut i: usize = start_idx;
    while i < lines.len()
        invariant
            pattern_compiles(KEY_PATTERN@),
            start_idx <= i,
            next_key(line_views(lines@), start_idx as int) == next_key(
                line_views(lines@),
                i as int,
            ),
        decreases lines.len() - i,
    {
        let stripped = trimmed(&lines[i]);
        assert(line_views(lines@)[i as int] == lines@[i as int]@);
        if !(stripped.len() == 0 || stripped[0] == '#') {
            match search(KEY_PATTERN, string_of(&stripped).as_str()) {
                Some(found) => {
                    let key = take_group(&found, 1);
                    if key.is_some() {
                        return Ok(key);
                    }
                },
                None => {
                    return Err(ParseError::InvalidPattern);
                },
            }
        }
        i += 1;
    }
    Ok(None)
}

/// Reads the value out of a trimmed key-bearing line and the outcome of
/// matching the key pattern on it.
pub fn value_from(stripped: &Vec<char>, found: &Option<Vec<Option<String>>>) -> (r: String)
    ensures
        r@ == value_after(stripped@, crate::pattern::found_view(*found)),
{
    match take_group(found, 0) {
        Some(whole) => {
            let matched = chars_of(whole.as_str()).len();
            if matched <= stripped.len() {
                let rest = slice_of(stripped, matched, stripped.len());
                string_of(&trimmed(&rest))
            } else {
                String::new()
            }
        },
        None => String::new(),
    }
}

/// Looks `key` up in the lines of a decrypted text: the value on the first
/// line that bears this key, or nothing where no line does.
pub fn current_value(lines: &Vec<Vec<char>>, key: &String) -> (r: Result<
    Option<String>,
    ParseError,
>)
    ensures
        match r {
            Ok(value) => pattern_compiles(KEY_PATTERN@) && text_of(value) == value_at(
                line_views(lines@),
                key@,
                0,
            ),
            Err(e) => !pattern_compiles(KEY_PATTERN@) && e == ParseError::InvalidPattern,
        },
{
    if !compiles(KEY_PATTERN) {
        return Err(ParseError::InvalidPattern);
    }
    let mut i: usize = 0;
    while i < lines.len()
        invariant
            pattern_compiles(KEY_PATTERN@),
            value_at(line_views(lines@), key@, 0) == value_at(line_views(lines@), key@, i as int),
        decreases lines.len() - i,
    {
        let stripped = trimmed(&lines[i]);
        assert(line_views(lines@)[i as int] == lines@[i as int]@);
        if !(stripped.len() == 0 || stripped[0] == '#') {
            match search(KEY_PATTERN, string_of(&stripped).as_str()) {
                Some(found) => {
                    if let Some(found_key) = take_group(&found, 1) {
                        if found_key == *key {
                            return Ok(Some(value_from(&stripped, &found)));
                        }
                    }
                },
                None => {
                    return Err(ParseError::InvalidPattern);
                },
            }
        }
        i += 1;
    }
    Ok(None)
}

/// Finds every directive of a decrypted text and the key it governs.
///
/// A directive is a line that, once trimmed, matches the directive pattern
/// and has a command left after trimming. Its key is that of the nearest
/// following line that is neither blank nor a comment and matches the key
/// pattern; a directive with no such line gives no mapping. The mappings
/// come in the order of their directives.
pub fn parse_commands(decrypted_content: &str) -> (r: Result<Vec<CommandMapping>, ParseError>)
    ensures
        match r {
            Ok(mappings) => patterns_compile() && mapping_views(mappings@) == parsed(
                decrypted_content@,
            ),
            Err(e) => !patterns_compile() && e == ParseError::InvalidPattern,
        },
{
    if !compiles(DIRECTIVE_PATTERN) || !compiles(KEY_PATTERN) {
        return Err(ParseError::InvalidPattern);
    }
    let lines = split_lines(&chars_of(decrypted_content));
    let mut mappings: Vec<CommandMapping> = Vec::new();
    let mut i: usize = 0;
    while i < lines.len()
        invariant
            patterns_compile(),
            i <= lines.len(),
            line_views(lines@) == lines_of(decrypted_content@),
            mapping_views(mappings@) == mappings_upto(line_views(lines@), i as int),
        decreases lines.len() - i,
    {
        let stripped = trimmed(&lines[i]);
        assert(line_views(lines@)[i as int] == lines@[i as int]@);
        let ghost before = mapping_views(mappings@);
        match search(DIRECTIVE_PATTERN, string_of(&stripped).as_str()) {
            Some(found) => {
                if let Some(command) = command_from(&found) {
                    match find_next_key(&lines, i + 1) {
                        Ok(Some(key)) => {
                            let mapping = CommandMapping { key, command };
                            mappings.push(mapping);
                            assert(mapping_views(mappings@) =~= before.push(mapping@));
                        },
                        Ok(None) => {},
                        Err(e) => {
                            return Err(e);
                        },
                    }
                }
            },
            None => {
                return Err(ParseError::InvalidPattern);
            },
        }
        i += 1;
    }
    Ok(mappings)
}

} // verus!
