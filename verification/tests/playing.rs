use demonator::conditions::should_run_step;
use demonator::config::{
    check_config, default_delay, default_jitter, default_pause, default_timeout, default_true,
    AskStep, Capture, Chapter, CommandStep, CommentStep, Config, ConfigError, InputStep,
    Interaction, Step, TimedPauseStep,
};
use demonator::demo::resolve_demo;
use demonator::dry_run::{chapter_header, dry_run};
use demonator::nav::{
    is_enter, navigate, read_keys, read_nav, restore_tty_mode, Awaited, KeyReader, KeyStep, NavAction,
};
use demonator::play::{Action, Reply, RunMode};
use demonator::reload::{file_changed, Stamp};
use demonator::run::{Attended, Outcome, Output, Ran};
use demonator::session::{run_demo, says_yes, Session, Start};
use demonator::vars::Vars;

fn command(text: &str) -> CommandStep {
    CommandStep {
        text: text.to_string(),
        speed: None,
        delay: None,
        jitter: None,
        pause: None,
        capture: None,
        fake_output: None,
        output_speed: None,
        execute: default_true(),
        wait_for: None,
        timeout: default_timeout(),
        wait: None,
        interact: None,
        if_condition: None,
        unless: None,
        wait_before: false,
        wait_after: false,
        env: Vars::new(),
        hidden: false,
    }
}

fn comment(text: &str) -> CommentStep {
    CommentStep {
        comment: text.to_string(),
        style: None,
        speed: None,
        delay: None,
        jitter: None,
        pause: None,
    }
}

fn directive(text: &str) -> Step {
    Step::Directive(text.to_string())
}

fn chapter(name: &str, steps: Vec<Step>) -> Chapter {
    Chapter {
        name: name.to_string(),
        steps,
    }
}

fn config(steps: Vec<Step>) -> Config {
    Config {
        prompt: "$ ".to_string(),
        clear: false,
        speed: None,
        delay: default_delay(),
        jitter: default_jitter(),
        pause: default_pause(),
        highlight: false,
        auto_advance: None,
        setup: None,
        teardown: None,
        env: Vars::new(),
        steps,
        chapters: vec![],
        show_exit_status: default_true(),
    }
}

/// Replies to the actions of a demo, and the log of what it did.
struct Player {
    lines: Vec<&'static str>,
    keys: Vec<&'static str>,
    outcomes: Vec<Outcome>,
    endings: Vec<Attended>,
    log: Vec<String>,
}

impl Player {
    fn new() -> Player {
        Player {
            lines: vec![],
            keys: vec![],
            outcomes: vec![],
            endings: vec![],
            log: vec![],
        }
    }

    fn perform(&mut self, action: Action) -> Option<Reply> {
        match action {
            Action::Nothing => Some(Reply::Done),
            Action::Sleep(ms) => {
                self.log.push(format!("sleep {}", ms));
                Some(Reply::Done)
            }
            Action::AwaitEnter => {
                self.log.push("enter".to_string());
                Some(Reply::Done)
            }
            Action::AwaitKey => {
                self.log.push("key".to_string());
                Some(Reply::Done)
            }
            Action::AwaitLine => Some(Reply::Line(self.lines.remove(0).to_string())),
            Action::AwaitInput => {
                let keys = if self.keys.is_empty() {
                    ""
                } else {
                    self.keys.remove(0)
                };
                self.log.push(format!("input {}", keys));
                Some(Reply::Keys(keys.as_bytes().to_vec()))
            }
            Action::Type(typing) => {
                let mut text = String::new();
                for stroke in &typing.strokes {
                    text.push_str(&stroke.text);
                }
                self.log.push(format!(
                    "type {}{} at {}",
                    text, typing.tail, typing.delay
                ));
                Some(Reply::Done)
            }
            Action::Run(job, mode) => {
                let (text, _) = job.script.split_once("\n__demonator").unwrap();
                let how = match mode {
                    RunMode::Hidden => "hidden",
                    RunMode::HiddenCapture => "hidden capture",
                    RunMode::Visible => "visible",
                    RunMode::VisibleCapture => "visible capture",
                };
                let mut env = String::new();
                for i in 0..job.env.len() {
                    env.push_str(&format!(" {}={}", job.env.name_at(i), job.env.value_at(i)));
                }
                self.log.push(format!("run {} {}{}", how, text, env));
                let outcome = if self.outcomes.is_empty() {
                    ran(Some(0), "", None)
                } else {
                    self.outcomes.remove(0)
                };
                Some(Reply::Outcome(outcome))
            }
            Action::Watch(_, watch) => {
                self.log.push(format!("watch {}", watch.timeout()));
                Some(Reply::Attended(self.endings.remove(0)))
            }
            Action::Converse(_, script) => {
                let lines: Vec<String> = script.iter().map(|i| i.send.clone()).collect();
                self.log.push(format!("converse {}", lines.join(" ")));
                Some(Reply::Attended(self.endings.remove(0)))
            }
            Action::Exit(code) => {
                self.log.push(format!("exit {}", code));
                None
            }
            Action::Finish => {
                self.log.push("finish".to_string());
                None
            }
        }
    }

    fn play(mut self, config: Config) -> Vec<String> {
        let process = vec![("P".to_string(), "0".to_string())];
        let mut session = Session::new(config, process);
        while let Some(reply) = self.perform(session.next_action()) {
            for output in session.resume(reply) {
                self.log.push(match output {
                    Output::Stdout(text) => format!("out {}", text),
                    Output::Stderr(text) => format!("err {}", text),
                });
            }
        }
        self.log
    }
}

fn ran(code: Option<i32>, stdout: &str, snapshot: Option<&str>) -> Outcome {
    Outcome::Ran(Ran {
        code,
        stdout: stdout.as_bytes().to_vec(),
        stderr: vec![],
        snapshot: snapshot.map(|s| s.as_bytes().to_vec()),
    })
}

#[test]
fn a_command_is_typed_and_run_on_enter() {
    let log = Player::new().play(config(vec![Step::Command(command("echo hi"))]));
    assert_eq!(
        log,
        vec![
            "out $ ",
            "type echo hi at 50",
            "input ",
            "out \n",
            "run visible echo hi P=0",
            "finish",
        ]
    );
}

#[test]
fn the_screen_is_cleared_if_asked_for() {
    let mut config = config(vec![directive("clear")]);
    config.clear = true;
    assert_eq!(
        Player::new().play(config),
        vec!["out \x1B[2J\x1B[H", "out \x1B[2J\x1B[H", "finish"]
    );
}

#[test]
fn pauses_leave_a_prompt_that_is_reused() {
    let steps = vec![
        directive("pause"),
        Step::TimedPause(TimedPauseStep { pause: 20 }),
        Step::Comment(comment("# note")),
        Step::Comment(comment("# more")),
    ];
    assert_eq!(
        Player::new().play(config(steps)),
        vec![
            "out $ ",
            "enter",
            "sleep 20",
            "out \x1B[2m",
            "type # note at 50",
            "out \x1B[0m\n",
            "out $ ",
            "out \x1B[2m",
            "type # more at 50",
            "out \x1B[0m\n",
            "finish",
        ]
    );
}

#[test]
fn an_auto_advancing_demo_is_hands_free() {
    let mut slow = command("two");
    slow.wait = Some(3000);
    let steps = vec![Step::Command(command("one")), directive("pause"), Step::Command(slow)];
    let mut config = config(steps);
    config.auto_advance = Some(1500);
    config.speed = Some(25);
    assert_eq!(
        Player::new().play(config),
        vec![
            "out $ ",
            "type one at 40",
            "out \n",
            "run visible one P=0",
            "sleep 1500",
            "out $ ",
            "sleep 1500",
            "type two at 40",
            "out \n",
            "run visible two P=0",
            "sleep 3000",
            "finish",
        ]
    );
}

#[test]
fn waits_hold_before_and_after() {
    let mut cmd = command("terraform apply");
    cmd.wait_before = true;
    cmd.wait_after = true;
    assert_eq!(
        Player::new().play(config(vec![Step::Command(cmd)])),
        vec![
            "out $ ",
            "enter",
            "type terraform apply at 50",
            "input ",
            "out \n",
            "run visible terraform apply P=0",
            "out $ ",
            "key",
            "out \r\x1B[2K",
            "finish",
        ]
    );
}

#[test]
fn an_unknown_directive_ends_the_demo() {
    let steps = vec![directive("stop"), Step::Command(command("never"))];
    assert_eq!(
        Player::new().play(config(steps)),
        vec!["err [demonator] unknown directive: stop\n", "exit 1"]
    );
}

#[test]
fn setup_and_teardown_run_hidden() {
    let mut config = config(vec![directive("clear")]);
    config.setup = Some(vec!["mkdir d".to_string(), "cd d".to_string()]);
    config.teardown = Some(vec!["rm -r d".to_string()]);
    config.env.insert("C".to_string(), "1".to_string());
    let mut player = Player::new();
    player.outcomes = vec![
        ran(Some(2), "", None),
        ran(Some(0), "", Some("C=1\0X=y\0")),
        Outcome::Failed("gone".to_string()),
    ];
    assert_eq!(
        player.play(config),
        vec![
            "run hidden mkdir d P=0 C=1",
            "err [demonator] setup/teardown command failed (2): mkdir d\n",
            "run hidden cd d P=0 C=1",
            "out \x1B[2J\x1B[H",
            "run hidden rm -r d C=1 X=y",
            "finish",
        ]
    );
}

#[test]
fn captured_values_reach_later_commands() {
    let mut first = command("start");
    first.capture = Some(Capture {
        name: "id".to_string(),
        pattern: Some("session (\\w+)".to_string()),
        json_path: None,
    });
    let second = command("attach {id}");
    let mut player = Player::new();
    player.outcomes = vec![ran(Some(0), "session abc\n", None)];
    assert_eq!(
        player.play(config(vec![Step::Command(first), Step::Command(second)])),
        vec![
            "out $ ",
            "type start at 50",
            "input ",
            "out \n",
            "run visible capture start P=0",
            "out session abc\n",
            "err ",
            "out $ ",
            "type attach abc at 50",
            "input ",
            "out \n",
            "run visible attach abc P=0 id=abc",
            "finish",
        ]
    );
}

#[test]
fn hidden_commands_are_silent() {
    let mut hidden = command("nono audit --json");
    hidden.hidden = true;
    hidden.env.insert("E".to_string(), "1".to_string());
    hidden.capture = Some(Capture {
        name: "id".to_string(),
        pattern: None,
        json_path: Some("[0].id".to_string()),
    });
    let mut plain = command("touch x");
    plain.hidden = true;
    let mut player = Player::new();
    player.outcomes = vec![
        ran(Some(0), "[{\"id\": 7}]", Some("P=0\0E=1\0")),
        Outcome::Failed("gone".to_string()),
    ];
    let steps = vec![
        directive("pause"),
        Step::Command(hidden),
        Step::Command(plain),
        Step::Comment(comment("{id}")),
        Step::Command(command("echo {id}")),
    ];
    assert_eq!(
        player.play(config(steps)),
        vec![
            "out $ ",
            "enter",
            "run hidden capture nono audit --json P=0 E=1",
            "run hidden touch x P=0 id=7",
            "out \x1B[2m",
            "type {id} at 50",
            "out \x1B[0m\n",
            "out $ ",
            "type echo 7 at 50",
            "input ",
            "out \n",
            "run visible echo 7 P=0 id=7",
            "finish",
        ]
    );
}

#[test]
fn made_up_output_hides_the_real_one() {
    let mut both = command("curl");
    both.fake_output = Some("fake\n".to_string());
    let mut typed = command("wget");
    typed.fake_output = Some("body".to_string());
    typed.output_speed = Some(40);
    typed.execute = false;
    let mut neither = command("rm -rf /");
    neither.execute = false;
    let steps = vec![Step::Command(both), Step::Command(typed), Step::Command(neither)];
    assert_eq!(
        Player::new().play(config(steps)),
        vec![
            "out $ ",
            "type curl at 50",
            "input ",
            "out \n",
            "out fake\n",
            "run hidden curl P=0",
            "out $ ",
            "type wget at 50",
            "input ",
            "out \n",
            "type body at 25",
            "out \n",
            "out $ ",
            "type rm -rf / at 50",
            "input ",
            "out \n",
            "finish",
        ]
    );
}

#[test]
fn watched_and_answered_commands_pass_their_environment_on() {
    let mut watched = command("serve");
    watched.wait_for = Some("ready".to_string());
    watched.timeout = 60;
    let mut answered = command("npm init");
    answered.interact = Some(vec![Interaction {
        expect: None,
        send: "my-app".to_string(),
    }]);
    let mut player = Player::new();
    player.endings = vec![
        Attended::Ended(0, Some(b"A=1\0".to_vec())),
        Attended::Ended(1, None),
    ];
    let steps = vec![
        Step::Command(watched),
        Step::Command(answered),
        Step::Command(command("env")),
    ];
    let log = player.play(config(steps));
    assert!(log.contains(&"watch 60".to_string()));
    assert!(log.contains(&"converse my-app".to_string()));
    assert!(log.contains(&"run visible env A=1".to_string()));
}

#[test]
fn a_command_that_cannot_be_watched_is_noted() {
    let mut watched = command("serve");
    watched.wait_for = Some("ready".to_string());
    let mut session = Session::new(config(vec![Step::Command(watched)]), vec![]);
    loop {
        match session.next_action() {
            Action::Watch(_, _) => break,
            _ => {
                session.resume(Reply::Done);
            }
        }
    }
    let failed = Reply::Attended(Attended::Failed("no shell".to_string()));
    let outputs = session.resume(failed);
    assert_eq!(outputs.len(), 1);
    match &outputs[0] {
        Output::Stderr(text) => {
            assert_eq!(text, "[demonator] failed to run command: no shell\n")
        }
        _ => panic!("expected a note"),
    }
}

#[test]
fn a_bad_pattern_starts_nothing() {
    let mut watched = command("serve");
    watched.wait_for = Some("(".to_string());
    let log = Player::new().play(config(vec![Step::Command(watched)]));
    assert_eq!(log.len(), 6);
    assert_eq!(log[..4], ["out $ ", "type serve at 50", "input ", "out \n"]);
    assert!(log[4].starts_with("err [demonator] invalid wait_for pattern: regex parse error"));
    assert_eq!(log[5], "finish");
}

#[test]
fn a_preview_is_given_where_it_is_asked_for() {
    let mut previewed = config(vec![directive("pause")]);
    previewed.setup = Some(vec!["mkdir d".to_string()]);
    match run_demo(previewed, vec![], true) {
        Start::Preview(text) => assert_eq!(
            text,
            "\x1B[2m[setup]\x1B[0m\n  mkdir d\n\n\x1B[2m[pause]\x1B[0m\n"
        ),
        Start::Play(_) => panic!("expected a preview"),
    }
    let mut played = config(vec![directive("pause")]);
    played.setup = Some(vec!["mkdir d".to_string()]);
    match run_demo(played, vec![], false) {
        Start::Play(session) => assert!(matches!(
            session.next_action(),
            Action::Run(_, RunMode::Hidden)
        )),
        Start::Preview(_) => panic!("expected a demo"),
    }
}

#[test]
fn a_file_changes_with_its_time() {
    let at = |before_epoch: bool, seconds: u64, nanos: u32| {
        Some(Stamp {
            before_epoch,
            seconds,
            nanos,
        })
    };
    assert!(!file_changed(None, None));
    assert!(!file_changed(at(false, 5, 1), at(false, 5, 1)));
    assert!(file_changed(at(false, 5, 1), at(false, 5, 2)));
    assert!(file_changed(at(false, 5, 1), at(true, 5, 1)));
    assert!(file_changed(at(false, 5, 1), None));
    assert!(file_changed(None, at(false, 5, 1)));
}

#[test]
fn answers_decide_what_runs() {
    let mut yes = command("yes");
    yes.if_condition = Some("go".to_string());
    let mut no = command("no");
    no.unless = Some("go".to_string());
    let ask = AskStep {
        ask: "Go?".to_string(),
        capture: "go".to_string(),
    };
    let mut player = Player::new();
    player.lines = vec!["  Yes \n"];
    let steps = vec![Step::Ask(ask), Step::Command(yes), Step::Command(no)];
    assert_eq!(
        player.play(config(steps)),
        vec![
            "out \x1B[33m?\x1B[0m Go? \x1B[2m[y/N]\x1B[0m ",
            "out $ ",
            "type yes at 50",
            "input ",
            "out \n",
            "run visible yes P=0",
            "finish",
        ]
    );
}

#[test]
fn no_unsets_the_variable() {
    let ask = |text: &str| {
        Step::Ask(AskStep {
            ask: text.to_string(),
            capture: "go".to_string(),
        })
    };
    let mut cmd = command("x{go}");
    cmd.hidden = true;
    let mut player = Player::new();
    player.lines = vec!["y\n", "nope\n"];
    let steps = vec![ask("1"), ask("2"), Step::Command(cmd)];
    let log = player.play(config(steps));
    assert!(log.contains(&"run hidden x{go} P=0".to_string()));
}

#[test]
fn a_variable_set_twice_holds_the_later_value() {
    let input = |text: &str| {
        Step::Input(InputStep {
            input: text.to_string(),
            capture: "name".to_string(),
            default: None,
        })
    };
    let mut cmd = command("hi {name}");
    cmd.hidden = true;
    let mut player = Player::new();
    player.lines = vec!["Ada\n", "Bob\n"];
    let log = player.play(config(vec![input("1"), input("2"), Step::Command(cmd)]));
    assert!(log.contains(&"run hidden hi Bob P=0".to_string()));
}

#[test]
fn input_falls_back_to_its_default() {
    let input = |default: Option<&str>| {
        Step::Input(InputStep {
            input: "Name".to_string(),
            capture: "name".to_string(),
            default: default.map(str::to_string),
        })
    };
    let hidden = || {
        let mut cmd = command("hi {name}");
        cmd.hidden = true;
        Step::Command(cmd)
    };
    let mut player = Player::new();
    player.lines = vec![" Ada \n", "\n", "  \n"];
    let steps = vec![
        input(None),
        hidden(),
        input(Some("Bob")),
        hidden(),
        input(None),
        hidden(),
    ];
    assert_eq!(
        player.play(config(steps)),
        vec![
            "out \x1B[33m?\x1B[0m Name \x1B[2m[enter]\x1B[0m ",
            "run hidden hi Ada P=0",
            "out \x1B[33m?\x1B[0m Name \x1B[2m[Bob]\x1B[0m ",
            "run hidden hi Bob P=0",
            "out \x1B[33m?\x1B[0m Name \x1B[2m[enter]\x1B[0m ",
            "run hidden hi {name} P=0",
            "finish",
        ]
    );
}

#[test]
fn yes_is_told_as_in_lower_case() {
    for code in 0..=0x10FFFFu32 {
        if let Some(ch) = char::from_u32(code) {
            for answer in [
                ch.to_string(),
                format!("{}es", ch),
                format!("y{}s", ch),
                format!("ye{}", ch),
            ] {
                let lower = answer.to_lowercase();
                assert_eq!(says_yes(&answer), lower == "y" || lower == "yes", "{}", answer);
            }
        }
    }
    assert!(says_yes("YeS"));
    assert!(!says_yes(""));
    assert!(!says_yes("ye"));
    assert!(!says_yes("yess"));
}

fn chapters() -> Vec<Chapter> {
    vec![
        chapter("A", vec![Step::Command(command("a1")), Step::Command(command("a2"))]),
        chapter("B", vec![Step::Command(command("b1"))]),
        chapter("C", vec![Step::Command(command("c1"))]),
    ]
}

#[test]
fn chapters_are_announced_and_navigated() {
    let mut config = config(vec![]);
    config.chapters = chapters();
    let mut player = Player::new();
    player.keys = vec!["n", "p", "3", "n"];
    let header = |name: &str| format!("out {}", chapter_header(name));
    assert_eq!(
        player.play(config),
        vec![
            header("A"),
            "out $ ".to_string(),
            "type a1 at 50".to_string(),
            "input n".to_string(),
            header("B"),
            "out $ ".to_string(),
            "type b1 at 50".to_string(),
            "input p".to_string(),
            header("A"),
            "out $ ".to_string(),
            "type a1 at 50".to_string(),
            "input 3".to_string(),
            header("C"),
            "out $ ".to_string(),
            "type c1 at 50".to_string(),
            "input n".to_string(),
            "run visible c1 P=0".to_string(),
            "finish".to_string(),
        ]
    );
}

#[test]
fn chapters_do_not_matter_without_any() {
    let mut player = Player::new();
    player.keys = vec!["n"];
    let log = player.play(config(vec![Step::Command(command("x")), Step::Command(command("y"))]));
    assert!(log.contains(&"run visible x P=0".to_string()));
    assert!(log.contains(&"run visible y P=0".to_string()));
}

#[test]
fn keys_ask_for_chapters() {
    assert_eq!(read_nav("n"), NavAction::NextChapter);
    assert_eq!(read_nav("p"), NavAction::PrevChapter);
    assert_eq!(read_nav("1"), NavAction::JumpChapter(0));
    assert_eq!(read_nav("12"), NavAction::JumpChapter(11));
    assert_eq!(read_nav("0"), NavAction::Continue);
    assert_eq!(read_nav("N"), NavAction::Continue);
    assert_eq!(read_nav("-1"), NavAction::Continue);
    assert_eq!(read_keys(true, &b"n".to_vec()), NavAction::NextChapter);
    assert_eq!(read_keys(false, &b"n".to_vec()), NavAction::Continue);
    assert_eq!(read_keys(true, &vec![]), NavAction::Continue);
    assert_eq!(read_keys(true, &vec![0xFF]), NavAction::Continue);
}

#[test]
fn navigation_leads_to_chapter_starts() {
    let mut config = config(vec![]);
    config.chapters = chapters();
    let demo = resolve_demo(&config);
    let go = |idx: usize, action: NavAction| navigate(&demo.chapters, idx, action);
    assert_eq!(go(0, NavAction::NextChapter), Some(1));
    assert_eq!(go(1, NavAction::NextChapter), Some(1));
    assert_eq!(go(2, NavAction::NextChapter), Some(2));
    assert_eq!(go(3, NavAction::NextChapter), None);
    assert_eq!(go(0, NavAction::PrevChapter), Some(0));
    assert_eq!(go(2, NavAction::PrevChapter), Some(0));
    assert_eq!(go(3, NavAction::PrevChapter), Some(1));
    assert_eq!(go(0, NavAction::JumpChapter(2)), Some(2));
    assert_eq!(go(0, NavAction::JumpChapter(3)), None);
    assert_eq!(go(0, NavAction::Continue), None);
    assert_eq!(navigate(&vec![], 0, NavAction::PrevChapter), None);
}

#[test]
fn enter_is_a_line_feed_or_a_carriage_return() {
    for key in 0..=255u8 {
        assert_eq!(is_enter(key), key == b'\n' || key == b'\r');
    }
}

#[test]
fn keys_are_read_up_to_what_is_awaited() {
    let mut any = KeyReader::new(Awaited::Key);
    assert_eq!(any.press(b' '), KeyStep::Done);
    assert_eq!(any.press(b'\r'), KeyStep::DoneWithEnter);

    let mut enter = KeyReader::new(Awaited::Enter);
    assert_eq!(enter.press(b'x'), KeyStep::More);
    assert_eq!(enter.press(b'\n'), KeyStep::DoneWithEnter);
    assert!(enter.keys().is_empty());

    let mut input = KeyReader::new(Awaited::Input);
    assert_eq!(input.press(b'1'), KeyStep::More);
    assert_eq!(input.press(b'2'), KeyStep::More);
    assert_eq!(input.press(b'\r'), KeyStep::DoneWithEnter);
    assert_eq!(input.keys(), b"12".to_vec());
}

#[test]
fn the_terminal_is_restored_to_what_was_saved() {
    assert_eq!(
        restore_tty_mode(Some("5500:5".to_string())),
        Some(vec!["5500:5".to_string()])
    );
    assert_eq!(restore_tty_mode(None), None);
}

#[test]
fn a_config_has_steps_or_chapters() {
    assert_eq!(check_config(&config(vec![])), Err(ConfigError::NothingToPlay));
    assert_eq!(check_config(&config(vec![directive("pause")])), Ok(()));
    let mut both = config(vec![directive("pause")]);
    both.chapters = chapters();
    assert_eq!(check_config(&both), Err(ConfigError::StepsAndChapters));
    let mut chaptered = config(vec![]);
    chaptered.chapters = chapters();
    assert_eq!(check_config(&chaptered), Ok(()));
    assert_eq!(
        ConfigError::NothingToPlay.message(),
        "Error: config must have either 'steps' or 'chapters'"
    );
    assert_eq!(
        ConfigError::StepsAndChapters.message(),
        "Error: config cannot have both 'steps' and 'chapters'"
    );
}

#[test]
fn both_conditions_must_hold() {
    let mut cmd = command("x");
    cmd.if_condition = Some("a".to_string());
    cmd.unless = Some("b".to_string());
    let mut vars = Vars::new();
    vars.insert("a".to_string(), "1".to_string());
    assert!(should_run_step(&cmd, &vars));
    vars.insert("b".to_string(), " \t".to_string());
    assert!(should_run_step(&cmd, &vars));
    vars.insert("b".to_string(), "1".to_string());
    assert!(!should_run_step(&cmd, &vars));
}

#[test]
fn a_dry_run_shows_manual_pauses() {
    let plain = command("cargo build --release");
    let mut before = command("cargo test");
    before.wait_before = true;
    let mut after = command("kubectl get pods");
    after.wait_after = true;
    let mut both = command("terraform apply");
    both.wait_before = true;
    both.wait_after = true;
    let steps = vec![
        Step::Command(plain),
        Step::Command(before),
        Step::Command(after),
        Step::Command(both),
    ];
    assert_eq!(
        dry_run(&config(steps)),
        "$ cargo build --release\n\
         $ cargo test  \x1B[2m[wait-before]\x1B[0m\n\
         $ kubectl get pods  \x1B[2m[wait-after]\x1B[0m\n\
         $ terraform apply  \x1B[2m[wait-before, wait-after]\x1B[0m\n"
    );
}

#[test]
fn a_dry_run_shows_everything_else() {
    let mut cmd = command("curl {host}");
    cmd.execute = false;
    cmd.fake_output = Some("one\ntwo\n".to_string());
    cmd.wait_for = Some("x".to_string());
    cmd.interact = Some(vec![]);
    cmd.if_condition = Some("a".to_string());
    cmd.capture = Some(Capture {
        name: "n".to_string(),
        pattern: None,
        json_path: None,
    });
    cmd.hidden = true;
    let mut styled = comment("# note");
    styled.style = Some("bold".to_string());
    let mut config = config(vec![]);
    config.setup = Some(vec!["mkdir d".to_string()]);
    config.teardown = Some(vec!["rm d".to_string(), "sync".to_string()]);
    config.chapters = vec![
        chapter(
            "A",
            vec![
                directive("pause"),
                Step::TimedPause(TimedPauseStep { pause: 250 }),
                Step::Ask(AskStep {
                    ask: "Go?".to_string(),
                    capture: "go".to_string(),
                }),
                Step::Input(InputStep {
                    input: "Name".to_string(),
                    capture: "name".to_string(),
                    default: None,
                }),
                Step::Input(InputStep {
                    input: "Name".to_string(),
                    capture: "name".to_string(),
                    default: Some("Bob".to_string()),
                }),
            ],
        ),
        chapter("B", vec![Step::Comment(styled), Step::Command(cmd)]),
    ];
    assert_eq!(
        dry_run(&config),
        "\x1B[2m[setup]\x1B[0m\n  mkdir d\n\n\
         \x1B[1;36m── A ──\x1B[0m\n\
         \x1B[2m[pause]\x1B[0m\n\
         \x1B[2m[pause: 250ms]\x1B[0m\n\
         \x1B[33m[ask]\x1B[0m Go? \x1B[2m→ go\x1B[0m\n\
         \x1B[33m[input]\x1B[0m Name \x1B[2m→ name\x1B[0m\n\
         \x1B[33m[input]\x1B[0m Name \x1B[2m→ name \x1B[2m(default: Bob)\x1B[0m\x1B[0m\n\
         \x1B[1;36m── B ──\x1B[0m\n\
         $ \x1B[1m# note\x1B[0m\n\
         $ curl {host}  \x1B[2m[no-exec, fake-output, wait-for, interactive, conditional, capture, hidden]\x1B[0m\n  \
         \x1B[2m▸ one\x1B[0m\n  \
         \x1B[2m▸ two\x1B[0m\n\
         \n\x1B[2m[teardown]\x1B[0m\n  rm d\n  sync\n"
    );
}

#[test]
fn highlighting_colours_what_is_typed() {
    let mut config = config(vec![Step::Command(command("ls -l"))]);
    config.highlight = true;
    let log = Player::new().play(config);
    assert!(log.contains(&"type \x1B[1;37mls\x1B[0m \x1B[33m-l\x1B[0m at 50".to_string()));
}

#[test]
fn a_demo_that_is_over_stays_so() {
    let mut session = Session::new(config(vec![directive("clear")]), vec![]);
    loop {
        match session.next_action() {
            Action::Finish => break,
            _ => {
                session.resume(Reply::Done);
            }
        }
    }
    assert!(session.resume(Reply::Line("y".to_string())).is_empty());
    assert!(matches!(session.next_action(), Action::Finish));
}
