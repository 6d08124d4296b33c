use demonator::snapshot::{
    env_snapshot_name, parse_env_snapshot, shell_script_with_env_snapshot,
};
use demonator::vars::{initial_env, merge_env, persist_env_snapshot, Vars};

fn vars(pairs: &[(&str, &str)]) -> Vars {
    let mut vars = Vars::new();
    for (name, value) in pairs {
        vars.insert(name.to_string(), value.to_string());
    }
    vars
}

fn value<'a>(vars: &'a Vars, name: &str) -> Option<&'a str> {
    vars.get(name).map(String::as_str)
}

#[test]
fn names_are_bound_once() {
    let mut env = vars(&[("A", "1"), ("B", "2"), ("A", "3")]);
    assert_eq!(env.len(), 2);
    assert_eq!(value(&env, "A"), Some("3"));
    assert_eq!(env.name_at(0), "A");
    assert_eq!(env.value_at(1), "2");
    env.remove("A");
    assert_eq!(value(&env, "A"), None);
    assert_eq!(env.len(), 1);
    env.remove("missing");
    assert_eq!(env.len(), 1);
    assert_eq!(value(&env.copy(), "B"), Some("2"));
}

#[test]
fn an_overlay_wins() {
    let env = merge_env(&vars(&[("A", "1"), ("B", "2")]), &vars(&[("B", "3"), ("C", "4")]));
    assert_eq!(value(&env, "A"), Some("1"));
    assert_eq!(value(&env, "B"), Some("3"));
    assert_eq!(value(&env, "C"), Some("4"));
    assert_eq!(env.len(), 3);
}

#[test]
fn the_config_wins_over_the_process() {
    let process = vec![
        ("PATH".to_string(), "/bin".to_string()),
        ("HOME".to_string(), "/root".to_string()),
    ];
    let env = initial_env(process, &vars(&[("HOME", "/tmp")]));
    assert_eq!(value(&env, "PATH"), Some("/bin"));
    assert_eq!(value(&env, "HOME"), Some("/tmp"));
}

#[test]
fn without_a_report_nothing_changes() {
    let mut env = vars(&[("A", "1")]);
    let before = env.copy();
    persist_env_snapshot(&mut env, &before, &vars(&[("A", "2")]), None);
    assert_eq!(value(&env, "A"), Some("1"));
}

#[test]
fn untouched_overlays_stay_local() {
    let mut env = vars(&[("A", "1"), ("B", "2")]);
    let before = env.copy();
    let overlay = vars(&[("A", "x"), ("NEW", "y")]);
    let left = merge_env(&before, &overlay);
    persist_env_snapshot(&mut env, &before, &overlay, Some(left));
    assert_eq!(value(&env, "A"), Some("1"));
    assert_eq!(value(&env, "B"), Some("2"));
    assert_eq!(value(&env, "NEW"), None);
}

#[test]
fn changes_and_removals_persist() {
    let mut env = vars(&[("A", "1"), ("B", "2")]);
    let before = env.copy();
    let overlay = vars(&[("A", "x")]);
    let left = vars(&[("A", "changed"), ("C", "3")]);
    persist_env_snapshot(&mut env, &before, &overlay, Some(left));
    assert_eq!(value(&env, "A"), Some("changed"));
    assert_eq!(value(&env, "B"), None);
    assert_eq!(value(&env, "C"), Some("3"));
}

#[test]
fn a_report_is_read_field_by_field() {
    let env = parse_env_snapshot(&b"A=1\0\0NOEQUALS\0B=x=y\0C=\0A=2\0LAST=9".to_vec());
    assert_eq!(value(&env, "A"), Some("2"));
    assert_eq!(value(&env, "B"), Some("x=y"));
    assert_eq!(value(&env, "C"), Some(""));
    assert_eq!(value(&env, "LAST"), Some("9"));
    assert_eq!(value(&env, "NOEQUALS"), None);
    assert_eq!(env.len(), 4);
    assert_eq!(parse_env_snapshot(&vec![]).len(), 0);
}

#[test]
fn a_report_may_hold_other_bytes() {
    let env = parse_env_snapshot(&b"N=\xC3\xA9\0M=\xFFx\0".to_vec());
    assert_eq!(value(&env, "N"), Some("é"));
    assert_eq!(value(&env, "M"), Some("\u{FFFD}x"));
}

#[test]
fn an_environment_reads_back() {
    let pairs = [("HOME", "/root"), ("MSG", "two\nlines = 1"), ("É", "─")];
    let mut report = Vec::new();
    for (name, value) in pairs {
        report.extend_from_slice(name.as_bytes());
        report.push(b'=');
        report.extend_from_slice(value.as_bytes());
        report.push(0);
    }
    let env = parse_env_snapshot(&report);
    assert_eq!(env.len(), 3);
    for (name, expected) in pairs {
        assert_eq!(value(&env, name), Some(expected));
    }
}

#[test]
fn the_script_reports_and_keeps_the_status() {
    assert_eq!(
        shell_script_with_env_snapshot("make"),
        "make\n__demonator_status=$?\nenv -0 > \"$DEMONATOR_ENV_FILE\"\nexit \"$__demonator_status\""
    );
}

#[test]
fn reports_are_kept_apart() {
    assert_eq!(env_snapshot_name(4711, 3), "demonator-env-4711-3.env");
    assert_ne!(env_snapshot_name(1, 1), env_snapshot_name(1, 11));
}
