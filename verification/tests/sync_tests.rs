use shell_sops::store::{ProcessRun, StoreError};
use shell_sops::sync::{reconcile, Action, Engine, Failure, KeyRef, Mode};

fn ok(stdout: &str) -> ProcessRun {
    ProcessRun::Exited { success: true, stdout: stdout.as_bytes().to_vec(), stderr: Vec::new() }
}

fn failed(stderr: &str) -> ProcessRun {
    ProcessRun::Exited { success: false, stdout: Vec::new(), stderr: stderr.as_bytes().to_vec() }
}

fn files(names: &[&str]) -> Vec<String> {
    names.iter().map(|n| n.to_string()).collect()
}

fn key(file: &str, key: &str) -> KeyRef {
    KeyRef { file: file.to_string(), key: key.to_string() }
}

fn decrypt(file: &str) -> Action {
    Action::Decrypt { file: file.to_string() }
}

fn run(command: &str) -> Action {
    Action::Run { command: command.to_string() }
}

fn write(file: &str, key: &str, value: &str) -> Action {
    Action::Write { file: file.to_string(), key: key.to_string(), value: value.to_string() }
}

#[test]
fn sync_writes_a_drifted_key() {
    let mut engine = Engine::new(Mode::Sync, files(&["s.yaml"]));
    assert!(engine.is_well_formed());
    assert_eq!(engine.pending(), decrypt("s.yaml"));
    assert_eq!(engine.step(ok("# shell: echo hi\nfoo: bar\n")), run("echo hi"));
    assert_eq!(engine.step(ok("hi\n")), write("s.yaml", "foo", "hi"));
    assert_eq!(engine.step(ok("")), Action::Finish);
    assert!(engine.is_done());
    assert!(engine.succeeded());
    assert_eq!(engine.exit_code(), 0);
    assert_eq!(engine.report().updated, vec![key("s.yaml", "foo")]);
    assert!(engine.report().failures.is_empty());
    assert!(engine.report().drifted.is_empty());
}

#[test]
fn check_reports_a_drifted_key_and_fails() {
    let mut engine = Engine::new(Mode::Check, files(&["s.yaml"]));
    assert_eq!(engine.pending(), decrypt("s.yaml"));
    assert_eq!(engine.step(ok("# shell: echo hi\nfoo: bar\n")), run("echo hi"));
    assert_eq!(engine.step(ok("hi\n")), Action::Finish);
    assert!(engine.is_done());
    assert!(!engine.succeeded());
    assert_eq!(engine.exit_code(), 1);
    assert_eq!(engine.report().drifted, vec![key("s.yaml", "foo")]);
    assert!(engine.report().updated.is_empty());
    assert!(engine.report().failures.is_empty());
}

#[test]
fn second_sync_writes_nothing() {
    let mut first = Engine::new(Mode::Sync, files(&["s.yaml"]));
    first.step(ok("# shell: echo hi\nfoo: bar\n# shell: date +%Y\nyear = 1999\n"));
    assert_eq!(first.step(ok("hi\n")), write("s.yaml", "foo", "hi"));
    assert_eq!(first.step(ok("")), run("date +%Y"));
    assert_eq!(first.step(ok("2024\n")), write("s.yaml", "year", "2024"));
    assert_eq!(first.step(ok("")), Action::Finish);
    assert_eq!(first.report().updated.len(), 2);

    let mut second = Engine::new(Mode::Sync, files(&["s.yaml"]));
    assert_eq!(
        second.step(ok("# shell: echo hi\nfoo: hi\n# shell: date +%Y\nyear = 2024\n")),
        run("echo hi")
    );
    assert_eq!(second.step(ok("hi\n")), run("date +%Y"));
    assert_eq!(second.step(ok("2024\n")), Action::Finish);
    assert!(second.succeeded());
    assert!(second.report().updated.is_empty());
}

#[test]
fn check_never_asks_for_a_write() {
    let answers = vec![
        ok("# shell: a\nx: 1\n# shell: b\ny: 2\n# shell: c\nz: 3\n"),
        ok("other\n"),
        failed("boom"),
        ok("3\n"),
        ProcessRun::Unreachable,
        ok("# shell: d\nw: 0\n"),
        ok("1\n"),
        ok("ignored"),
    ];
    let mut engine = Engine::new(Mode::Check, files(&["a.yaml", "b.yaml", "c.yaml"]));
    assert!(!matches!(engine.pending(), Action::Write { .. }));
    for answer in answers {
        let action = engine.step(answer);
        assert!(!matches!(action, Action::Write { .. }));
        assert!(engine.is_well_formed());
    }
    assert!(engine.is_done());
    assert!(engine.report().updated.is_empty());
    assert_eq!(engine.report().drifted, vec![key("a.yaml", "x"), key("c.yaml", "w")]);
}

#[test]
fn check_over_two_files_names_only_the_drifted_key() {
    let mut engine = Engine::new(Mode::Check, files(&["clean.yaml", "stale.yaml"]));
    assert_eq!(engine.pending(), decrypt("clean.yaml"));
    assert_eq!(engine.step(ok("# shell: echo a\nkey: a\n")), run("echo a"));
    assert_eq!(engine.step(ok("a\n")), decrypt("stale.yaml"));
    assert_eq!(engine.step(ok("# shell: echo b\nkey: old\n")), run("echo b"));
    assert_eq!(engine.step(ok("b\n")), Action::Finish);
    assert_eq!(engine.report().drifted, vec![key("stale.yaml", "key")]);
    assert!(engine.report().failures.is_empty());
    assert!(!engine.succeeded());
    assert_ne!(engine.exit_code(), 0);
}

#[test]
fn check_without_drift_succeeds() {
    let mut engine = Engine::new(Mode::Check, files(&["a.yaml"]));
    assert_eq!(engine.step(ok("# shell: echo a\nkey: a\n")), run("echo a"));
    assert_eq!(engine.step(ok("a\n")), Action::Finish);
    assert!(engine.succeeded());
    assert_eq!(engine.exit_code(), 0);
}

#[test]
fn missing_tool_fails_every_file_and_writes_nothing() {
    let mut engine = Engine::new(Mode::Sync, files(&["a.yaml", "b.yaml", "c.ini"]));
    assert_eq!(engine.pending(), decrypt("a.yaml"));
    assert_eq!(engine.step(ProcessRun::Unreachable), decrypt("b.yaml"));
    assert_eq!(engine.step(ProcessRun::Unreachable), decrypt("c.ini"));
    assert_eq!(engine.step(ProcessRun::Unreachable), Action::Finish);
    assert_eq!(
        engine.report().failures,
        vec![
            Failure::Decrypt { file: "a.yaml".to_string(), error: StoreError::ToolNotFound },
            Failure::Decrypt { file: "b.yaml".to_string(), error: StoreError::ToolNotFound },
            Failure::Decrypt { file: "c.ini".to_string(), error: StoreError::ToolNotFound },
        ]
    );
    assert!(engine.report().updated.is_empty());
    assert!(!engine.succeeded());
    assert_eq!(engine.exit_code(), 1);
}

#[test]
fn failed_decrypt_leaves_only_that_file() {
    let mut engine = Engine::new(Mode::Sync, files(&["bad.yaml", "good.yaml"]));
    assert_eq!(engine.step(failed("MAC mismatch")), decrypt("good.yaml"));
    assert_eq!(engine.step(ok("# shell: echo v\nk: v\n")), run("echo v"));
    assert_eq!(engine.step(ok("v\n")), Action::Finish);
    assert_eq!(
        engine.report().failures,
        vec![Failure::Decrypt {
            file: "bad.yaml".to_string(),
            error: StoreError::ToolExecutionFailed("MAC mismatch".to_string()),
        }]
    );
    assert!(!engine.succeeded());
}

#[test]
fn plaintext_that_is_no_text_is_a_decrypt_failure() {
    let mut engine = Engine::new(Mode::Check, files(&["bin.yaml"]));
    let garbage = ProcessRun::Exited { success: true, stdout: vec![0xff, 0xfe], stderr: Vec::new() };
    assert_eq!(engine.step(garbage), Action::Finish);
    assert_eq!(
        engine.report().failures,
        vec![Failure::Decrypt { file: "bin.yaml".to_string(), error: StoreError::EncodingError }]
    );
}

#[test]
fn failed_command_skips_its_key_and_goes_on() {
    let mut engine = Engine::new(Mode::Sync, files(&["s.yaml"]));
    assert_eq!(engine.step(ok("# shell: false\na: 1\n# shell: echo 2\nb: 1\n")), run("false"));
    assert_eq!(engine.step(failed("")), run("echo 2"));
    assert_eq!(engine.step(ok("2\n")), write("s.yaml", "b", "2"));
    assert_eq!(engine.step(ok("")), Action::Finish);
    assert_eq!(
        engine.report().failures,
        vec![Failure::CommandExecutionFailed { file: "s.yaml".to_string(), key: "a".to_string() }]
    );
    assert_eq!(engine.report().updated, vec![key("s.yaml", "b")]);
    assert!(!engine.succeeded());
    assert_eq!(engine.exit_code(), 1);
}

#[test]
fn command_that_cannot_start_is_a_failure() {
    let mut engine = Engine::new(Mode::Check, files(&["s.yaml"]));
    assert_eq!(engine.step(ok("# shell: nope\na: 1\n")), run("nope"));
    assert_eq!(engine.step(ProcessRun::Unreachable), Action::Finish);
    assert_eq!(
        engine.report().failures,
        vec![Failure::CommandExecutionFailed { file: "s.yaml".to_string(), key: "a".to_string() }]
    );
    assert!(engine.report().drifted.is_empty());
    assert!(!engine.succeeded());
}

#[test]
fn failed_write_is_recorded_and_the_run_goes_on() {
    let mut engine = Engine::new(Mode::Sync, files(&["s.yaml", "t.yaml"]));
    assert_eq!(engine.step(ok("# shell: echo n\nk: o\n")), run("echo n"));
    assert_eq!(engine.step(ok("n\n")), write("s.yaml", "k", "n"));
    assert_eq!(engine.step(failed("read-only")), decrypt("t.yaml"));
    assert_eq!(engine.step(ok("plain: text\n")), Action::Finish);
    assert_eq!(
        engine.report().failures,
        vec![Failure::Write {
            file: "s.yaml".to_string(),
            key: "k".to_string(),
            error: StoreError::ToolExecutionFailed("read-only".to_string()),
        }]
    );
    assert!(engine.report().updated.is_empty());
    assert!(!engine.succeeded());
}

#[test]
fn sync_succeeds_however_many_keys_it_wrote() {
    let mut engine = Engine::new(Mode::Sync, files(&["s.yaml"]));
    engine.step(ok("# shell: a\nx: 0\n# shell: b\ny: 0\n"));
    assert_eq!(engine.step(ok("1")), write("s.yaml", "x", "1"));
    assert_eq!(engine.step(ok("")), run("b"));
    assert_eq!(engine.step(ok("2")), write("s.yaml", "y", "2"));
    assert_eq!(engine.step(ok("")), Action::Finish);
    assert!(engine.succeeded());
    assert_eq!(engine.exit_code(), 0);
    assert_eq!(engine.report().updated, vec![key("s.yaml", "x"), key("s.yaml", "y")]);
}

#[test]
fn only_trailing_line_feeds_are_cut_from_command_output() {
    let mut engine = Engine::new(Mode::Sync, files(&["s.yaml"]));
    engine.step(ok("# shell: cat motd\nmotd: x\n"));
    assert_eq!(engine.step(ok("  line one\nline two \n\n")), write("s.yaml", "motd", "  line one\nline two "));
}

#[test]
fn stacked_directives_write_in_order() {
    let mut engine = Engine::new(Mode::Sync, files(&["s.yaml"]));
    assert_eq!(engine.step(ok("# shell: echo a\n# shell: echo b\nkey: a\n")), run("echo a"));
    assert_eq!(engine.step(ok("a\n")), run("echo b"));
    assert_eq!(engine.step(ok("b\n")), write("s.yaml", "key", "b"));
    assert_eq!(engine.step(ok("")), Action::Finish);
}

#[test]
fn empty_batch_is_done_at_once() {
    let mut engine = Engine::new(Mode::Check, Vec::new());
    assert!(engine.is_done());
    assert!(engine.is_well_formed());
    assert_eq!(engine.pending(), Action::Finish);
    assert_eq!(engine.step(ok("anything")), Action::Finish);
    assert!(engine.succeeded());
    assert_eq!(engine.exit_code(), 0);
    assert_eq!(engine.mode(), Mode::Check);
}

#[test]
fn finished_engine_stays_finished() {
    let mut engine = Engine::new(Mode::Sync, files(&["s.yaml"]));
    assert_eq!(engine.step(ok("no: directives\n")), Action::Finish);
    let report = engine.report().clone();
    assert_eq!(engine.step(ProcessRun::Unreachable), Action::Finish);
    assert_eq!(engine.step(failed("late")), Action::Finish);
    assert_eq!(engine.report(), &report);
    assert!(engine.succeeded());
}

#[test]
fn reconcile_tells_drift_from_agreement() {
    let same = reconcile("k".to_string(), "v".to_string(), Some("v".to_string()));
    assert!(!same.changed);
    assert_eq!(same.key, "k");
    assert_eq!(same.expected_value, "v");
    assert_eq!(same.current_value, Some("v".to_string()));
    assert!(reconcile("k".to_string(), "v".to_string(), Some("w".to_string())).changed);
    assert!(reconcile("k".to_string(), "v".to_string(), Some("v ".to_string())).changed);
    assert!(reconcile("k".to_string(), "".to_string(), None).changed);
    assert!(reconcile("k".to_string(), "v".to_string(), None).changed);
}
