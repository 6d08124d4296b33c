use demonator::capture::{take_capture, Captured};
use demonator::color::{
    expand_colors, style_to_ansi, HL_BOLD_WHITE, HL_CYAN, HL_GREEN, HL_MAGENTA, HL_YELLOW,
};
use demonator::conditions::should_run_step;
use demonator::config::{
    default_delay, default_jitter, default_pause, default_prompt, default_timeout, default_true,
    Chapter, CommandStep, CommentStep, Config, Step,
};
use demonator::demo::{resolve_demo, CaptureRef};
use demonator::highlight::highlight_command;
use demonator::json_path::extract_json_path;
use demonator::run::{run_command, Outcome, Ran};
use demonator::substitute::substitute_vars;
use demonator::timing::{
    own_or_global, resolve_comment_delay, resolve_delay, speed_to_delay,
};
use demonator::vars::Vars;

fn command(text: &str) -> CommandStep {
    CommandStep {
        text: text.to_string(),
        speed: None,
        delay: None,
        jitter: None,
        pause: None,
        capture: None,
        fake_output: None,
        output_speed: None,
        execute: default_true(),
        wait_for: None,
        timeout: default_timeout(),
        wait: None,
        interact: None,
        if_condition: None,
        unless: None,
        wait_before: false,
        wait_after: false,
        env: Vars::new(),
        hidden: false,
    }
}

fn comment(text: &str) -> CommentStep {
    CommentStep {
        comment: text.to_string(),
        style: None,
        speed: None,
        delay: None,
        jitter: None,
        pause: None,
    }
}

fn config(steps: Vec<Step>, chapters: Vec<Chapter>) -> Config {
    Config {
        prompt: default_prompt(),
        clear: false,
        speed: None,
        delay: default_delay(),
        jitter: default_jitter(),
        pause: default_pause(),
        highlight: false,
        auto_advance: None,
        setup: None,
        teardown: None,
        env: Vars::new(),
        steps,
        chapters,
        show_exit_status: default_true(),
    }
}

fn vars(pairs: &[(&str, &str)]) -> Vars {
    let mut vars = Vars::new();
    for (name, value) in pairs {
        vars.insert(name.to_string(), value.to_string());
    }
    vars
}

#[test]
fn test_expand_colors_basic() {
    let result = expand_colors("{red}hello{reset}");
    assert_eq!(result, "\x1B[31mhello\x1B[0m");
}

#[test]
fn test_expand_colors_all_colors() {
    assert_eq!(expand_colors("{black}"), "\x1B[30m");
    assert_eq!(expand_colors("{red}"), "\x1B[31m");
    assert_eq!(expand_colors("{green}"), "\x1B[32m");
    assert_eq!(expand_colors("{yellow}"), "\x1B[33m");
    assert_eq!(expand_colors("{blue}"), "\x1B[34m");
    assert_eq!(expand_colors("{magenta}"), "\x1B[35m");
    assert_eq!(expand_colors("{cyan}"), "\x1B[36m");
    assert_eq!(expand_colors("{white}"), "\x1B[37m");
    assert_eq!(expand_colors("{bold}"), "\x1B[1m");
    assert_eq!(expand_colors("{dim}"), "\x1B[2m");
    assert_eq!(expand_colors("{reset}"), "\x1B[0m");
}

#[test]
fn test_expand_colors_no_placeholders() {
    assert_eq!(expand_colors("plain text"), "plain text");
}

#[test]
fn test_expand_colors_multiple() {
    let result = expand_colors("{green}~{reset} {blue}${reset}");
    assert_eq!(result, "\x1B[32m~\x1B[0m \x1B[34m$\x1B[0m");
}

#[test]
fn test_default_values() {
    assert_eq!(default_delay(), 50);
    assert_eq!(default_jitter(), 0);
    assert_eq!(default_pause(), 200);
    assert_eq!(default_prompt(), "{green}~{reset} {blue}${reset} ");
    assert_eq!(speed_to_delay(20), 50);
}

#[test]
fn test_step_override_resolves_correctly() {
    let s0 = command("cmd1");
    let mut s1 = command("cmd2");
    s1.delay = Some(10);
    let mut config = config(vec![], vec![]);
    config.delay = 80;
    config.jitter = 30;
    config.pause = 300;
    assert_eq!(resolve_delay(&s0, &config), 80);
    assert_eq!(own_or_global(s0.jitter, config.jitter), 30);
    assert_eq!(own_or_global(s0.pause, config.pause), 300);

    assert_eq!(resolve_delay(&s1, &config), 10);
    assert_eq!(own_or_global(s1.jitter, config.jitter), 30);
}

#[test]
fn test_speed_override_resolves_correctly() {
    let s0 = command("cmd1");
    let mut s1 = command("cmd2");
    s1.speed = Some(40);
    let mut s2 = command("cmd3");
    s2.delay = Some(10);
    let mut config = config(vec![], vec![]);
    config.speed = Some(20);
    config.delay = 80;
    config.jitter = 30;
    config.pause = 300;
    assert_eq!(resolve_delay(&s0, &config), 50);
    assert_eq!(resolve_delay(&s1, &config), 25);
    assert_eq!(resolve_delay(&s2, &config), 50);
}

#[test]
fn test_substitute_vars_basic() {
    let vars = vars(&[("session_id", "abc123")]);
    assert_eq!(
        substitute_vars("nono attach {session_id}", &vars),
        "nono attach abc123"
    );
}

#[test]
fn test_substitute_vars_multiple() {
    let vars = vars(&[("host", "localhost"), ("port", "8080")]);
    assert_eq!(
        substitute_vars("curl {host}:{port}", &vars),
        "curl localhost:8080"
    );
}

#[test]
fn test_substitute_vars_no_match() {
    let vars = Vars::new();
    assert_eq!(substitute_vars("no vars here", &vars), "no vars here");
}

#[test]
fn test_substitute_vars_does_not_replace_colors() {
    let vars = vars(&[("name", "world")]);
    assert_eq!(
        substitute_vars("{red}hello {name}{reset}", &vars),
        "{red}hello world{reset}"
    );
}

#[test]
fn test_capture_regex_extraction() {
    let capture = CaptureRef {
        name: "session".to_string(),
        pattern: Some(r"Started detached session (\w+)".to_string()),
        json_path: None,
    };
    let text = "Started detached session e96400cf26349136.\nAttach with: nono attach e96400cf26349136\n";
    match take_capture(&capture, "", text) {
        Captured::Value(value) => assert_eq!(value, "e96400cf26349136"),
        _ => panic!("expected a value"),
    }
}

#[test]
fn test_extract_json_path_array_index() {
    let json = r#"[{"session_id": "abc123"}, {"session_id": "def456"}]"#;
    assert_eq!(
        extract_json_path(json, "[0].session_id"),
        Some("abc123".to_string())
    );
    assert_eq!(
        extract_json_path(json, "[1].session_id"),
        Some("def456".to_string())
    );
}

#[test]
fn test_extract_json_path_nested() {
    let json = r#"{"data": {"items": [{"id": 42}]}}"#;
    assert_eq!(
        extract_json_path(json, "data.items[0].id"),
        Some("42".to_string())
    );
}

#[test]
fn test_extract_json_path_simple_key() {
    let json = r#"{"name": "hello"}"#;
    assert_eq!(extract_json_path(json, "name"), Some("hello".to_string()));
}

#[test]
fn test_extract_json_path_no_match() {
    let json = r#"{"name": "hello"}"#;
    assert_eq!(extract_json_path(json, "missing"), None);
}

#[test]
fn test_extract_json_path_invalid_json() {
    assert_eq!(extract_json_path("not json", "foo"), None);
}

#[test]
fn test_comment_timing_resolves_correctly() {
    let c0 = comment("global timing");
    let mut c1 = comment("custom timing");
    c1.speed = Some(40);
    c1.delay = Some(10);
    c1.jitter = Some(5);
    c1.pause = Some(50);
    let mut config = config(vec![], vec![]);
    config.speed = Some(20);
    config.delay = 80;
    config.jitter = 30;
    config.pause = 300;
    assert_eq!(resolve_comment_delay(&c0, &config), 50);
    assert_eq!(own_or_global(c0.jitter, config.jitter), 30);
    assert_eq!(own_or_global(c0.pause, config.pause), 300);

    assert_eq!(resolve_comment_delay(&c1, &config), 25);
    assert_eq!(own_or_global(c1.jitter, config.jitter), 5);
    assert_eq!(own_or_global(c1.pause, config.pause), 50);
}

#[test]
fn test_exported_env_persists_between_commands() {
    let mut env_state = Vars::new();
    let overlay = Vars::new();

    let exported = Outcome::Ran(Ran {
        code: Some(0),
        stdout: vec![],
        stderr: vec![],
        snapshot: Some(b"DEMONATOR_TEST_TOKEN=s3cr3t_t0k3n\0".to_vec()),
    });
    let report = run_command(&exported, &None, &mut env_state, &overlay, true);
    assert_eq!(report.code, 0);
    assert_eq!(
        env_state.get("DEMONATOR_TEST_TOKEN").map(String::as_str),
        Some("s3cr3t_t0k3n")
    );

    let printed = Outcome::Ran(Ran {
        code: Some(0),
        stdout: b"s3cr3t_t0k3n".to_vec(),
        stderr: vec![],
        snapshot: Some(b"DEMONATOR_TEST_TOKEN=s3cr3t_t0k3n\0".to_vec()),
    });
    let capture = Some(CaptureRef {
        name: "token".to_string(),
        pattern: Some("(.*)".to_string()),
        json_path: None,
    });
    let report = run_command(&printed, &capture, &mut env_state, &overlay, true);
    assert_eq!(report.code, 0);
    assert_eq!(report.captured.as_deref(), Some("s3cr3t_t0k3n"));
}

#[test]
fn test_resolve_demo_chapters() {
    let a = Chapter {
        name: "A".to_string(),
        steps: vec![Step::Command(command("cmd1")), Step::Command(command("cmd2"))],
    };
    let b = Chapter {
        name: "B".to_string(),
        steps: vec![Step::Command(command("cmd3"))],
    };
    let demo = resolve_demo(&config(vec![], vec![a, b]));
    assert_eq!(demo.steps.len(), 3);
    assert_eq!(demo.chapters.len(), 2);
    assert_eq!(demo.chapters[0].name, "A");
    assert_eq!(demo.chapters[0].start, 0);
    assert_eq!(demo.chapters[1].name, "B");
    assert_eq!(demo.chapters[1].start, 2);
}

#[test]
fn test_should_run_step_if_present() {
    let mut cmd = command("test");
    cmd.if_condition = Some("myvar".to_string());

    let mut vars = Vars::new();
    assert!(!should_run_step(&cmd, &vars));

    vars.insert("myvar".to_string(), "value".to_string());
    assert!(should_run_step(&cmd, &vars));

    vars.insert("myvar".to_string(), "  ".to_string());
    assert!(!should_run_step(&cmd, &vars));
}

#[test]
fn test_should_run_step_unless_present() {
    let mut cmd = command("test");
    cmd.unless = Some("myvar".to_string());

    let vars = Vars::new();
    assert!(should_run_step(&cmd, &vars));

    let mut vars = Vars::new();
    vars.insert("myvar".to_string(), "value".to_string());
    assert!(!should_run_step(&cmd, &vars));
}

#[test]
fn test_highlight_command_basic() {
    let tokens = highlight_command("echo hello");
    assert!(!tokens.is_empty());
    assert_eq!(tokens[0], ('e', HL_BOLD_WHITE));
    assert_eq!(tokens[1], ('c', HL_BOLD_WHITE));
    assert_eq!(tokens[2], ('h', HL_BOLD_WHITE));
    assert_eq!(tokens[3], ('o', HL_BOLD_WHITE));
}

#[test]
fn test_highlight_command_flags() {
    let tokens = highlight_command("ls --all -l");
    let flag_chars: Vec<_> = tokens
        .iter()
        .filter(|(_, color)| *color == HL_YELLOW)
        .collect();
    assert!(flag_chars.len() >= 6);
}

#[test]
fn test_highlight_command_strings() {
    let tokens = highlight_command("echo \"hello world\"");
    let string_chars: Vec<_> = tokens
        .iter()
        .filter(|(_, color)| *color == HL_GREEN)
        .collect();
    assert!(string_chars.len() >= 13);
}

#[test]
fn test_highlight_command_pipe() {
    let tokens = highlight_command("cat file | grep pattern");
    let pipe_chars: Vec<_> = tokens
        .iter()
        .filter(|(ch, color)| *ch == '|' && *color == HL_CYAN)
        .collect();
    assert_eq!(pipe_chars.len(), 1);
}

#[test]
fn test_highlight_command_variable() {
    let tokens = highlight_command("echo $HOME");
    let var_chars: Vec<_> = tokens
        .iter()
        .filter(|(_, color)| *color == HL_MAGENTA)
        .collect();
    assert!(var_chars.len() >= 5);
}

#[test]
fn test_style_to_ansi() {
    assert_eq!(style_to_ansi(Some("dim")), "\x1B[2m");
    assert_eq!(style_to_ansi(Some("bold")), "\x1B[1m");
    assert_eq!(style_to_ansi(Some("italic")), "\x1B[3m");
    assert_eq!(style_to_ansi(Some("red")), "\x1B[31m");
    assert_eq!(style_to_ansi(None), "\x1B[2m");
}
