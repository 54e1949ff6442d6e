use shell_sops::parser::{
    command_from, current_value, find_next_key, parse_commands, value_from, CommandMapping,
};
use shell_sops::pattern::take_group;
use shell_sops::text::{
    chars_of, split_lines, string_of, trimmed, without_trailing_line_feeds,
};

fn chars(s: &str) -> Vec<char> {
    s.chars().collect()
}

fn lines(s: &str) -> Vec<Vec<char>> {
    s.split('\n').map(chars).collect()
}

fn mapping(key: &str, command: &str) -> CommandMapping {
    CommandMapping { key: key.to_string(), command: command.to_string() }
}

#[test]
fn directive_binds_the_key_below_it() {
    let parsed = parse_commands("# shell: echo hi\nfoo: bar\n").unwrap();
    assert_eq!(parsed, vec![mapping("foo", "echo hi")]);
}

#[test]
fn blank_line_between_directive_and_key_is_skipped() {
    let parsed = parse_commands("# shell: pass show db\n\ndb_password = old\n").unwrap();
    assert_eq!(parsed, vec![mapping("db_password", "pass show db")]);
}

#[test]
fn empty_command_gives_no_mapping() {
    assert_eq!(parse_commands("# shell:\nfoo: bar\n").unwrap(), vec![]);
    assert_eq!(parse_commands("# shell:    \t \nfoo: bar\n").unwrap(), vec![]);
    assert_eq!(parse_commands("   #   shell:   \nfoo: bar\n").unwrap(), vec![]);
}

#[test]
fn directive_at_end_of_text_gives_no_mapping() {
    assert_eq!(parse_commands("# shell: echo hi").unwrap(), vec![]);
    assert_eq!(parse_commands("# shell: echo hi\n").unwrap(), vec![]);
    assert_eq!(parse_commands("foo: bar\n# shell: echo hi\n\n# only a comment\n").unwrap(), vec![]);
}

#[test]
fn key_is_the_nearest_key_bearing_line() {
    let text = "# shell: echo one\n# a comment\n\n   \nno key on this line\nfirst: 1\nsecond: 2\n";
    assert_eq!(parse_commands(text).unwrap(), vec![mapping("first", "echo one")]);
}

#[test]
fn mappings_come_in_the_order_of_their_directives() {
    let text = "# shell: echo a\na: 1\n# shell: echo b\nb = 2\n#shell:echo c\nc: 3\n";
    assert_eq!(
        parse_commands(text).unwrap(),
        vec![mapping("a", "echo a"), mapping("b", "echo b"), mapping("c", "echo c")]
    );
}

#[test]
fn stacked_directives_share_the_key_below_them() {
    let text = "# shell: echo a\n# shell: echo b\nkey: old\n";
    assert_eq!(
        parse_commands(text).unwrap(),
        vec![mapping("key", "echo a"), mapping("key", "echo b")]
    );
}

#[test]
fn duplicate_keys_are_kept() {
    let text = "# shell: echo a\nkey: 1\n# shell: echo b\nkey: 2\n";
    assert_eq!(
        parse_commands(text).unwrap(),
        vec![mapping("key", "echo a"), mapping("key", "echo b")]
    );
}

#[test]
fn directive_and_key_may_be_indented() {
    let text = "section:\n    # shell:   vault read -field=token secret/x   \n    token: abc\n";
    assert_eq!(
        parse_commands(text).unwrap(),
        vec![mapping("token", "vault read -field=token secret/x")]
    );
}

#[test]
fn text_without_directives_gives_nothing() {
    assert_eq!(parse_commands("").unwrap(), vec![]);
    assert_eq!(parse_commands("foo: bar\n# just a comment\nbaz = 1\n").unwrap(), vec![]);
    assert_eq!(parse_commands("# shellx: echo\nfoo: bar\n").unwrap(), vec![]);
}

#[test]
fn carriage_returns_are_trimmed_away() {
    let parsed = parse_commands("# shell: echo hi\r\nfoo: bar\r\n").unwrap();
    assert_eq!(parsed, vec![mapping("foo", "echo hi")]);
}

#[test]
fn find_next_key_starts_at_the_given_line() {
    let all = lines("a: 1\n# c\n\nb = 2\nc: 3");
    assert_eq!(find_next_key(&all, 0), Ok(Some("a".to_string())));
    assert_eq!(find_next_key(&all, 1), Ok(Some("b".to_string())));
    assert_eq!(find_next_key(&all, 4), Ok(Some("c".to_string())));
    assert_eq!(find_next_key(&all, 5), Ok(None));
    assert_eq!(find_next_key(&all, 99), Ok(None));
}

#[test]
fn find_next_key_skips_lines_without_separator() {
    let all = lines("- item\nplain words\nkey=value");
    assert_eq!(find_next_key(&all, 0), Ok(Some("key".to_string())));
}

#[test]
fn current_value_is_what_follows_the_separator() {
    let all = lines("# shell: echo hi\nfoo: bar\ndb_password =   old value  \nempty:\n");
    assert_eq!(current_value(&all, &"foo".to_string()), Ok(Some("bar".to_string())));
    assert_eq!(
        current_value(&all, &"db_password".to_string()),
        Ok(Some("old value".to_string()))
    );
    assert_eq!(current_value(&all, &"empty".to_string()), Ok(Some(String::new())));
}

#[test]
fn current_value_of_a_missing_key_is_absent() {
    let all = lines("foo: bar\n# hidden: 1\n");
    assert_eq!(current_value(&all, &"other".to_string()), Ok(None));
    assert_eq!(current_value(&all, &"hidden".to_string()), Ok(None));
    assert_eq!(current_value(&Vec::new(), &"foo".to_string()), Ok(None));
}

#[test]
fn current_value_takes_the_first_line_that_bears_the_key() {
    let all = lines("key: first\nkey: second\n");
    assert_eq!(current_value(&all, &"key".to_string()), Ok(Some("first".to_string())));
}

#[test]
fn command_from_trims_and_rejects_empty_commands() {
    let found = Some(vec![Some("# shell: ls ".to_string()), Some("  ls -l ".to_string())]);
    assert_eq!(command_from(&found), Some("ls -l".to_string()));
    let blank = Some(vec![Some("# shell:  ".to_string()), Some("   ".to_string())]);
    assert_eq!(command_from(&blank), None);
    let unset = Some(vec![Some("x".to_string()), None]);
    assert_eq!(command_from(&unset), None);
    assert_eq!(command_from(&Some(vec![Some("x".to_string())])), None);
    assert_eq!(command_from(&None), None);
}

#[test]
fn value_from_drops_the_match_and_trims() {
    let found = Some(vec![Some("foo :".to_string()), Some("foo".to_string())]);
    assert_eq!(value_from(&chars("foo :  bar baz"), &found), "bar baz");
    assert_eq!(value_from(&chars("foo :"), &found), "");
    assert_eq!(value_from(&chars("foo"), &found), "");
    assert_eq!(value_from(&chars("foo : bar"), &None), "");
    assert_eq!(value_from(&chars("foo : bar"), &Some(vec![None])), "");
}

#[test]
fn take_group_picks_by_index() {
    let found = Some(vec![Some("ab".to_string()), None, Some("b".to_string())]);
    assert_eq!(take_group(&found, 0), Some("ab".to_string()));
    assert_eq!(take_group(&found, 1), None);
    assert_eq!(take_group(&found, 2), Some("b".to_string()));
    assert_eq!(take_group(&found, 3), None);
    assert_eq!(take_group(&None, 0), None);
}

#[test]
fn trimmed_removes_white_space_at_both_ends() {
    assert_eq!(trimmed(&chars("  a b \t\r\n")), chars("a b"));
    assert_eq!(trimmed(&chars("\u{a0}\u{3000}x\u{2003}")), chars("x"));
    assert_eq!(trimmed(&chars("   ")), chars(""));
    assert_eq!(trimmed(&chars("")), chars(""));
    assert_eq!(trimmed(&chars("abc")), chars("abc"));
}

#[test]
fn split_lines_cuts_at_every_line_feed() {
    assert_eq!(split_lines(&chars("")), vec![chars("")]);
    assert_eq!(split_lines(&chars("a")), vec![chars("a")]);
    assert_eq!(split_lines(&chars("a\n")), vec![chars("a"), chars("")]);
    assert_eq!(split_lines(&chars("a\n\nb")), vec![chars("a"), chars(""), chars("b")]);
    assert_eq!(split_lines(&chars("\n")), vec![chars(""), chars("")]);
    assert_eq!(split_lines(&chars("x\r\ny")), vec![chars("x\r"), chars("y")]);
}

#[test]
fn trailing_line_feeds_are_removed() {
    assert_eq!(without_trailing_line_feeds(&chars("hi\n")), chars("hi"));
    assert_eq!(without_trailing_line_feeds(&chars("hi\n\n\n")), chars("hi"));
    assert_eq!(without_trailing_line_feeds(&chars("a\nb\n")), chars("a\nb"));
    assert_eq!(without_trailing_line_feeds(&chars("hi ")), chars("hi "));
    assert_eq!(without_trailing_line_feeds(&chars("\n")), chars(""));
    assert_eq!(without_trailing_line_feeds(&chars("")), chars(""));
}

#[test]
fn chars_and_strings_convert_both_ways() {
    assert_eq!(chars_of("héllo ✓"), chars("héllo ✓"));
    assert_eq!(string_of(&chars("héllo ✓")), "héllo ✓");
    assert_eq!(string_of(&Vec::new()), "");
}
