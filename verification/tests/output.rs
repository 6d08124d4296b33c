use demonator::capture::{
    capture_by_path, capture_by_pattern, complain, take_capture, Captured,
};
use demonator::demo::{CaptureRef, InteractionRef};
use demonator::dialog::{dialog_ended, Dialog, DialogAction, DialogEvent};
use demonator::json_path::{extract_json_path, parse_json_path_segments, pick, JsonSegment};
use demonator::run::{
    capture_hidden, exit_code, report_run, run_attended_command, run_command, run_hidden_command,
    Attended, Outcome, Output, Ran,
};
use demonator::vars::Vars;
use demonator::watch::{judge, Fate, Watch, WatchEvent};

fn capture(pattern: Option<&str>, json_path: Option<&str>) -> CaptureRef {
    CaptureRef {
        name: "v".to_string(),
        pattern: pattern.map(str::to_string),
        json_path: json_path.map(str::to_string),
    }
}

fn value(captured: Captured) -> Option<String> {
    match captured {
        Captured::Value(value) => Some(value),
        _ => None,
    }
}

fn ran(code: Option<i32>, stdout: &str, stderr: &str) -> Outcome {
    Outcome::Ran(Ran {
        code,
        stdout: stdout.as_bytes().to_vec(),
        stderr: stderr.as_bytes().to_vec(),
        snapshot: None,
    })
}

fn texts(outputs: &[Output]) -> Vec<(bool, String)> {
    outputs
        .iter()
        .map(|o| match o {
            Output::Stdout(text) => (true, text.clone()),
            Output::Stderr(text) => (false, text.clone()),
        })
        .collect()
}

fn segments(path: &str) -> Vec<String> {
    parse_json_path_segments(path)
        .iter()
        .map(|s| match s {
            JsonSegment::Key(key) => format!("key {}", key),
            JsonSegment::Index(idx) => format!("index {}", idx),
        })
        .collect()
}

#[test]
fn paths_have_keys_and_indices() {
    assert_eq!(segments("foo.bar[2].baz"), vec!["key foo", "key bar", "index 2", "key baz"]);
    assert_eq!(segments(".name"), segments("name"));
    assert_eq!(segments("[0][1]"), vec!["index 0", "index 1"]);
    assert_eq!(segments(""), Vec::<String>::new());
    assert_eq!(segments("..a"), vec!["key a"]);
    assert_eq!(segments("[x].a"), vec!["key a"]);
    assert_eq!(segments("[7"), vec!["index 7"]);
    assert_eq!(segments("a.[+3]"), vec!["key a", "index 3"]);
    assert_eq!(segments("a]b"), vec!["key a]b"]);
}

#[test]
fn keys_are_plain() {
    for path in ["..a...b[", "a[1]b.[c]d", "[[[", ". .", "x]]y"] {
        let mut again = String::new();
        for segment in parse_json_path_segments(path) {
            match segment {
                JsonSegment::Key(key) => {
                    assert!(!key.is_empty() && !key.contains('.') && !key.contains('['));
                    again.push_str(&format!(".{}", key));
                }
                JsonSegment::Index(idx) => again.push_str(&format!("[{}]", idx)),
            }
        }
        assert_eq!(segments(&again), segments(path));
    }
}

#[test]
fn paths_join_with_a_dot() {
    for head in ["", "a", "a[1]", ".a.", "[x]b"] {
        for tail in ["", "b", "[2]", ".c", "d.e"] {
            let mut expected = segments(head);
            expected.extend(segments(tail));
            assert_eq!(segments(&format!("{}.{}", head, tail)), expected);
        }
    }
    assert_eq!(segments("a[1.b"), vec!["key a"]);
}

#[test]
fn every_kind_of_json_value_is_extracted() {
    let json = r#"{"s":"t","n":1.5,"b":true,"z":null,"o":{"k":[1,"x"]},"[":3}"#;
    assert_eq!(extract_json_path(json, "s").as_deref(), Some("t"));
    assert_eq!(extract_json_path(json, "n").as_deref(), Some("1.5"));
    assert_eq!(extract_json_path(json, "b").as_deref(), Some("true"));
    assert_eq!(extract_json_path(json, "z"), None);
    assert_eq!(extract_json_path(json, "o").as_deref(), Some(r#"{"k":[1,"x"]}"#));
    assert_eq!(extract_json_path(json, "o.k").as_deref(), Some(r#"[1,"x"]"#));
    assert_eq!(extract_json_path(json, "o.k[1]").as_deref(), Some("x"));
    assert_eq!(extract_json_path(json, "o.k[2]"), None);
    assert_eq!(extract_json_path(json, "s.k"), None);
    assert_eq!(extract_json_path(json, "[0]"), None);
    assert_eq!(extract_json_path("\"top\"", "").as_deref(), Some("top"));
    assert_eq!(extract_json_path("[null]", "[0]"), None);
}

#[test]
fn a_path_picks_out_of_a_value() {
    let value: serde_json::Value = serde_json::from_str(r#"{"a":[{"b":"x"}]}"#).unwrap();
    assert_eq!(pick(&value, "a[0].b").as_deref(), Some("x"));
    assert_eq!(pick(&value, "a[1].b"), None);
}

#[test]
fn what_is_found_is_captured() {
    assert_eq!(value(capture_by_path(Some("x".to_string()))).as_deref(), Some("x"));
    assert!(matches!(capture_by_path(None), Captured::JsonMiss));
    assert_eq!(value(capture_by_pattern(Some("y".to_string()))).as_deref(), Some("y"));
    assert!(matches!(capture_by_pattern(None), Captured::Nothing));
    let ran = Ran {
        code: Some(0),
        stdout: b"o".to_vec(),
        stderr: b"e".to_vec(),
        snapshot: None,
    };
    let wanted = Some(capture(Some("(.)"), None));
    let report = report_run(&ran, &wanted, Captured::Value("z".to_string()), true);
    assert_eq!(report.captured.as_deref(), Some("z"));
    let report = report_run(&ran, &wanted, Captured::BadPattern, true);
    assert_eq!(report.captured, None);
    assert_eq!(report.outputs.len(), 3);
}

#[test]
fn a_wait_is_judged_by_what_was_found() {
    let output = WatchEvent::Output(vec![]);
    assert!(judge(false, 5, &output).is_none());
    assert_eq!(judge(true, 5, &output).map(|v| v.code), Some(0));
    assert!(judge(true, 5, &WatchEvent::Idle).is_none());
    assert_eq!(judge(true, 5, &WatchEvent::DeadlinePassed).map(|v| v.code), Some(1));
}

#[test]
fn json_paths_take_precedence_over_patterns() {
    let both = capture(Some("(b)"), Some("a"));
    assert_eq!(
        value(take_capture(&both, r#"{"a":"json"}"#, "b")).as_deref(),
        Some("json")
    );
    assert_eq!(value(take_capture(&both, "{}", "b")), None);
}

#[test]
fn captures_that_fail_are_complained_about() {
    let path = capture(None, Some("a.b"));
    let missed = take_capture(&path, "{}", "");
    assert!(matches!(missed, Captured::JsonMiss));
    assert_eq!(
        complain(&path, &missed).as_deref(),
        Some("[demonator] json_path 'a.b' did not match\n")
    );

    let pattern = capture(Some("("), None);
    let bad = take_capture(&pattern, "", "x");
    assert!(matches!(bad, Captured::BadPattern));
    assert_eq!(
        complain(&pattern, &bad).as_deref(),
        Some("[demonator] invalid capture pattern: (\n")
    );

    let unmatched = capture(Some("y(.)"), None);
    let nothing = take_capture(&unmatched, "", "x");
    assert!(matches!(nothing, Captured::Nothing));
    assert_eq!(complain(&unmatched, &nothing), None);

    let groupless = capture(Some("x"), None);
    assert!(matches!(take_capture(&groupless, "", "x"), Captured::Nothing));
    let unused_group = capture(Some("x(y)?"), None);
    assert!(matches!(take_capture(&unused_group, "", "x"), Captured::Nothing));
    assert!(matches!(
        take_capture(&capture(None, None), "{}", "x"),
        Captured::Nothing
    ));
}

#[test]
fn patterns_see_both_outputs_of_a_visible_command() {
    let mut env = Vars::new();
    let wanted = Some(capture(Some("id=(\\d+)"), None));
    let report = run_command(
        &ran(Some(0), "out\n", "id=42\n"),
        &wanted,
        &mut env,
        &Vars::new(),
        true,
    );
    assert_eq!(report.captured.as_deref(), Some("42"));
    assert_eq!(report.code, 0);
    assert_eq!(
        texts(&report.outputs),
        vec![(true, "out\n".to_string()), (false, "id=42\n".to_string())]
    );
    assert_eq!(capture_hidden(&capture(Some("id=(\\d+)"), None), &b"id=7".to_vec()).as_deref(), Some("7"));
    assert_eq!(capture_hidden(&capture(None, Some("[0]")), &b"[5]".to_vec()).as_deref(), Some("5"));
}

#[test]
fn exit_codes_are_reported_unless_switched_off() {
    let mut env = Vars::new();
    let note = "[demonator] command exited with status 3\n".to_string();
    let report = run_command(&ran(Some(3), "", ""), &None, &mut env, &Vars::new(), true);
    assert_eq!(report.code, 3);
    assert_eq!(texts(&report.outputs), vec![(false, note)]);
    let silent = run_command(&ran(Some(3), "", ""), &None, &mut env, &Vars::new(), false);
    assert_eq!(silent.code, 3);
    assert!(silent.outputs.is_empty());
    let killed = run_command(&ran(None, "", ""), &None, &mut env, &Vars::new(), true);
    assert_eq!(killed.code, 1);
    assert_eq!(
        texts(&killed.outputs),
        vec![(false, "[demonator] command exited with status 1\n".to_string())]
    );
}

#[test]
fn complaints_come_after_the_exit_code() {
    let mut env = Vars::new();
    let wanted = Some(capture(None, Some("a")));
    let report = run_command(&ran(Some(1), "{}", ""), &wanted, &mut env, &Vars::new(), true);
    assert_eq!(report.captured, None);
    assert_eq!(
        texts(&report.outputs),
        vec![
            (true, "{}".to_string()),
            (false, "".to_string()),
            (false, "[demonator] command exited with status 1\n".to_string()),
            (false, "[demonator] json_path 'a' did not match\n".to_string()),
        ]
    );
}

#[test]
fn a_command_that_cannot_run_changes_nothing() {
    let mut env = Vars::new();
    env.insert("A".to_string(), "1".to_string());
    let failed = Outcome::Failed("no shell".to_string());
    let report = run_command(&failed, &None, &mut env, &Vars::new(), true);
    assert_eq!(report.code, 1);
    assert_eq!(
        texts(&report.outputs),
        vec![(false, "[demonator] failed to run command: no shell\n".to_string())]
    );
    assert_eq!(env.get("A").map(String::as_str), Some("1"));
}

#[test]
fn failing_setup_commands_are_noted() {
    let mut env = Vars::new();
    let noted = run_hidden_command("false", &ran(Some(1), "", ""), &mut env);
    assert_eq!(
        texts(&noted),
        vec![(false, "[demonator] setup/teardown command failed (1): false\n".to_string())]
    );
    let killed = run_hidden_command("sleep", &ran(None, "", ""), &mut env);
    assert_eq!(
        texts(&killed),
        vec![(false, "[demonator] setup/teardown command failed (-1): sleep\n".to_string())]
    );
    assert!(run_hidden_command("true", &ran(Some(0), "", ""), &mut env).is_empty());
    let failed = Outcome::Failed("no shell".to_string());
    assert!(run_hidden_command("true", &failed, &mut env).is_empty());
}

#[test]
fn a_wait_ends_with_a_match() {
    let mut watch = Watch::new("port \\d+", 30).ok().unwrap();
    assert_eq!(watch.timeout(), 30);
    let step = watch.on(&WatchEvent::Output(b"starting\npo".to_vec()));
    assert_eq!(step.shown, "starting\npo");
    assert!(step.verdict.is_none());
    assert!(watch.on(&WatchEvent::Idle).verdict.is_none());
    let step = watch.on(&WatchEvent::Output(b"rt 80\n".to_vec()));
    let verdict = step.verdict.unwrap();
    assert_eq!(step.shown, "rt 80\n");
    assert_eq!(verdict.code, 0);
    assert_eq!(verdict.fate, Fate::Kill);
    assert!(verdict.note.is_none());
    assert!(!verdict.keeps_environment());
}

#[test]
fn a_wait_ends_when_the_time_is_up() {
    let mut watch = Watch::new("never", 2).ok().unwrap();
    let verdict = watch.on(&WatchEvent::DeadlinePassed).verdict.unwrap();
    assert_eq!(verdict.code, 1);
    assert_eq!(verdict.fate, Fate::Kill);
    assert_eq!(
        verdict.note.as_deref(),
        Some("[demonator] wait_for timed out after 2s\n")
    );
}

#[test]
fn a_wait_ends_with_the_command() {
    let ended_early = Some("[demonator] command exited before pattern matched\n");

    let mut watch = Watch::new("ab", 9).ok().unwrap();
    let exited = WatchEvent::Exited(Some(7), vec![b"a".to_vec(), b"b".to_vec()]);
    let step = watch.on(&exited);
    assert_eq!(step.shown, "ab");
    let verdict = step.verdict.unwrap();
    assert_eq!((verdict.code, verdict.fate), (0, Fate::Ended));
    assert!(verdict.note.is_none());
    assert!(verdict.keeps_environment());

    let mut watch = Watch::new("x", 9).ok().unwrap();
    let verdict = watch.on(&WatchEvent::Exited(Some(7), vec![])).verdict.unwrap();
    assert_eq!((verdict.code, verdict.fate), (7, Fate::Ended));
    assert_eq!(verdict.note.as_deref(), ended_early);
    let mut watch = Watch::new("x", 9).ok().unwrap();
    let verdict = watch.on(&WatchEvent::Exited(None, vec![])).verdict.unwrap();
    assert_eq!(verdict.code, 1);

    let mut watch = Watch::new("x", 9).ok().unwrap();
    let verdict = watch.on(&WatchEvent::Closed).verdict.unwrap();
    assert_eq!((verdict.code, verdict.fate), (1, Fate::Wait));
    assert_eq!(verdict.note.as_deref(), ended_early);
    let mut watch = Watch::new("", 9).ok().unwrap();
    let verdict = watch.on(&WatchEvent::Closed).verdict.unwrap();
    assert_eq!((verdict.code, verdict.fate), (0, Fate::Wait));
}

#[test]
fn a_wait_needs_a_regular_expression() {
    match Watch::new("(", 30) {
        Err(Attended::Refused(note)) => {
            assert!(note.starts_with("[demonator] invalid wait_for pattern: regex parse error"));
            assert!(note.ends_with("\n"));
        }
        _ => panic!("expected to be refused"),
    }
}

#[test]
fn exit_codes_default_to_one() {
    assert_eq!(exit_code(Some(0)), 0);
    assert_eq!(exit_code(Some(-3)), -3);
    assert_eq!(exit_code(None), 1);
}

#[test]
fn attended_commands_have_results() {
    let mut env = Vars::new();
    let nothing = Vars::new();

    let ended = dialog_ended(Some(4), Some(b"A=1\0".to_vec()));
    let (code, outputs) = run_attended_command(&ended, &mut env, &nothing);
    assert_eq!(code, 4);
    assert!(outputs.is_empty());
    assert_eq!(env.get("A").map(String::as_str), Some("1"));
    let (code, _) = run_attended_command(&dialog_ended(None, None), &mut env, &nothing);
    assert_eq!(code, 1);

    let refused = Attended::Refused("no\n".to_string());
    let (code, outputs) = run_attended_command(&refused, &mut env, &nothing);
    assert_eq!(code, 1);
    assert_eq!(texts(&outputs), vec![(false, "no\n".to_string())]);
    let failed = Attended::Failed("no shell".to_string());
    let (code, outputs) = run_attended_command(&failed, &mut env, &nothing);
    assert_eq!(code, 1);
    assert_eq!(
        texts(&outputs),
        vec![(false, "[demonator] failed to run command: no shell\n".to_string())]
    );
    assert_eq!(env.get("A").map(String::as_str), Some("1"));
}

#[test]
fn a_killed_command_passes_no_environment_on() {
    let report = || Some(b"A=1\0".to_vec());
    let killed = judge(true, 5, &WatchEvent::Output(vec![])).unwrap().end(report());
    assert!(matches!(killed, Attended::Ended(0, None)));
    let ended = judge(false, 5, &WatchEvent::Exited(Some(7), vec![])).unwrap().end(report());
    assert!(matches!(ended, Attended::Ended(7, Some(_))));
}

fn interaction(expect: Option<&str>, send: &str) -> InteractionRef {
    InteractionRef {
        expect: expect.map(str::to_string),
        send: send.to_string(),
    }
}

fn listens(action: &DialogAction, ms: u64) {
    match action {
        DialogAction::Listen(time) => assert_eq!(*time, ms),
        _ => panic!("expected to listen"),
    }
}

fn sends(action: &DialogAction, line: &str) {
    match action {
        DialogAction::Send(text) => assert_eq!(text, line),
        _ => panic!("expected to send"),
    }
}

fn output(text: &str) -> DialogEvent {
    DialogEvent::Output(text.as_bytes().to_vec())
}

#[test]
fn a_dialog_answers_in_order() {
    let script = vec![
        interaction(Some("name:"), "my-app"),
        interaction(None, "quick"),
        interaction(Some("name:"), "again"),
    ];
    let (mut dialog, first) = Dialog::open(script);
    listens(&first, 30000);
    let (shown, action) = dialog.on(&output("package na"));
    assert_eq!(shown, "package na");
    listens(&action, 30000);
    let (_, action) = dialog.on(&output("me: "));
    sends(&action, "my-app\n");
    let (shown, action) = dialog.on(&DialogEvent::Sent);
    assert_eq!(shown, "");
    listens(&action, 500);
    let (shown, action) = dialog.on(&output("name: "));
    assert_eq!(shown, "name: ");
    listens(&action, 500);
    let (_, action) = dialog.on(&DialogEvent::Quiet);
    sends(&action, "quick\n");
    let (_, action) = dialog.on(&DialogEvent::Sent);
    listens(&action, 30000);
    let (_, action) = dialog.on(&output("what?"));
    listens(&action, 30000);
    let (_, action) = dialog.on(&output(" name:"));
    sends(&action, "again\n");
    let (_, action) = dialog.on(&DialogEvent::Sent);
    listens(&action, 100);
    let (shown, action) = dialog.on(&output("bye"));
    assert_eq!(shown, "bye");
    listens(&action, 100);
    let (_, action) = dialog.on(&DialogEvent::Quiet);
    assert!(matches!(action, DialogAction::Done));
}

#[test]
fn a_dialog_gives_up_when_nothing_comes() {
    let (mut dialog, _) = Dialog::open(vec![interaction(Some("x"), "y")]);
    let (_, action) = dialog.on(&DialogEvent::Quiet);
    listens(&action, 100);
    let (_, action) = dialog.on(&output("x"));
    listens(&action, 100);
    let (_, action) = dialog.on(&DialogEvent::Quiet);
    assert!(matches!(action, DialogAction::Done));
}

#[test]
fn a_dialog_gives_up_when_a_line_cannot_be_sent() {
    let (mut dialog, _) = Dialog::open(vec![interaction(None, "a"), interaction(None, "b")]);
    let (_, action) = dialog.on(&DialogEvent::Quiet);
    sends(&action, "a\n");
    let (_, action) = dialog.on(&DialogEvent::Broken);
    listens(&action, 100);
}

#[test]
fn a_dialog_about_nothing_closes_at_once() {
    let (_, action) = Dialog::open(vec![]);
    listens(&action, 100);
}
