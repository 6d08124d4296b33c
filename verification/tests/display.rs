use demonator::color::{
    expand_colors, style_to_ansi, HL_BOLD_WHITE, HL_CYAN, HL_GREEN, HL_MAGENTA, HL_RESET,
    HL_YELLOW,
};
use demonator::dry_run::chapter_header;
use demonator::highlight::highlight_command;
use demonator::substitute::substitute_vars;
use demonator::timing::speed_to_delay;
use demonator::typing::{type_text, type_text_highlighted, Keystroke, Typing};
use demonator::vars::Vars;

fn colors(text: &str) -> Vec<&'static str> {
    let tokens = highlight_command(text);
    let chars: Vec<char> = tokens.iter().map(|t| t.0).collect();
    assert_eq!(chars, text.chars().collect::<Vec<char>>());
    tokens.iter().map(|t| t.1).collect()
}

fn bands(parts: &[(usize, &'static str)]) -> Vec<&'static str> {
    let mut result = Vec::new();
    for (n, color) in parts {
        for _ in 0..*n {
            result.push(*color);
        }
    }
    result
}

fn shown(typing: &Typing) -> String {
    let mut text = String::new();
    for stroke in &typing.strokes {
        text.push_str(&stroke.text);
    }
    text.push_str(typing.tail);
    text
}

#[test]
fn every_style_has_a_code() {
    for (style, code) in [
        ("yellow", "\x1B[33m"),
        ("green", "\x1B[32m"),
        ("blue", "\x1B[34m"),
        ("magenta", "\x1B[35m"),
        ("cyan", "\x1B[36m"),
        ("unheard-of", "\x1B[2m"),
        ("Bold", "\x1B[2m"),
    ] {
        assert_eq!(style_to_ansi(Some(style)), code);
    }
}

#[test]
fn expansion_leaves_nothing_to_expand() {
    let text = expand_colors("{{red}}{bold{reset}{unknown}");
    assert_eq!(text, "{\x1B[31m}{bold\x1B[0m{unknown}");
    assert_eq!(expand_colors(&text), text);
}

#[test]
fn words_flags_and_values() {
    assert_eq!(
        colors("ls -l --color=auto x"),
        bands(&[
            (2, HL_BOLD_WHITE),
            (1, HL_RESET),
            (2, HL_YELLOW),
            (1, HL_RESET),
            (8, HL_YELLOW),
            (4, HL_RESET),
            (1, HL_RESET),
            (1, HL_RESET),
        ])
    );
}

#[test]
fn operators_start_a_new_command() {
    assert_eq!(
        colors("a && b; c|d & e"),
        bands(&[
            (1, HL_BOLD_WHITE),
            (1, HL_RESET),
            (2, HL_CYAN),
            (1, HL_RESET),
            (1, HL_BOLD_WHITE),
            (1, HL_CYAN),
            (1, HL_RESET),
            (1, HL_BOLD_WHITE),
            (1, HL_CYAN),
            (1, HL_BOLD_WHITE),
            (1, HL_RESET),
            (1, HL_CYAN),
            (1, HL_RESET),
            (1, HL_BOLD_WHITE),
        ])
    );
}

#[test]
fn redirects_do_not() {
    assert_eq!(
        colors("a >> f 2>&1 < g"),
        bands(&[
            (1, HL_BOLD_WHITE),
            (1, HL_RESET),
            (2, HL_CYAN),
            (1, HL_RESET),
            (1, HL_RESET),
            (1, HL_RESET),
            (1, HL_RESET),
            (2, HL_CYAN),
            (1, HL_RESET),
            (1, HL_RESET),
            (1, HL_CYAN),
            (1, HL_RESET),
            (1, HL_RESET),
        ])
    );
}

#[test]
fn quotes_with_and_without_escapes() {
    assert_eq!(
        colors("\"a\\\"b\" '\\' x"),
        bands(&[(6, HL_GREEN), (1, HL_RESET), (3, HL_GREEN), (1, HL_RESET), (1, HL_RESET)])
    );
    assert_eq!(colors("\"open"), bands(&[(5, HL_GREEN)]));
    assert_eq!(colors("\"\\"), bands(&[(2, HL_GREEN)]));
}

#[test]
fn variables_of_all_forms() {
    assert_eq!(
        colors("${A B}x $é_1-$( $"),
        bands(&[
            (6, HL_MAGENTA),
            (1, HL_RESET),
            (1, HL_RESET),
            (4, HL_MAGENTA),
            (1, HL_RESET),
            (2, HL_MAGENTA),
            (1, HL_RESET),
            (1, HL_MAGENTA),
        ])
    );
    assert_eq!(colors("${open"), bands(&[(6, HL_MAGENTA)]));
}

#[test]
fn ascii_names_are_letters_digits_and_underscores() {
    for code in 0..128u8 {
        let ch = code as char;
        let colored = colors(&format!("$a{}", ch));
        let named = ch.is_ascii_alphanumeric() || ch == '_' || ch == '$';
        assert_eq!(colored[2] == HL_MAGENTA, named, "{:?}", ch);
        assert_eq!(ch.is_alphanumeric(), ch.is_ascii_alphanumeric());
    }
}

#[test]
fn comments_run_to_the_end() {
    assert_eq!(
        colors("a # b | c"),
        bands(&[(1, HL_BOLD_WHITE), (1, HL_RESET), (7, HL_GREEN)])
    );
    assert_eq!(colors("a#b"), bands(&[(3, HL_BOLD_WHITE)]));
    assert_eq!(colors("\t#"), bands(&[(1, HL_RESET), (1, HL_BOLD_WHITE)]));
}

#[test]
fn speeds_are_rounded_as_numbers() {
    for speed in 1..5000u64 {
        let expected = ((1000.0 / speed as f64).round() as u64).max(1);
        assert_eq!(speed_to_delay(speed), expected, "{}", speed);
    }
    assert_eq!(speed_to_delay(0), 50);
    assert_eq!(speed_to_delay(16), 63);
    assert_eq!(speed_to_delay(u64::MAX), 1);
}

#[test]
fn plain_typing_shows_the_text() {
    let typing = type_text("Hi, you.", 40, 10, 300);
    assert_eq!(shown(&typing), "Hi, you.");
    assert_eq!(typing.delay, 40);
    assert_eq!(typing.jitter, 10);
    let pauses: Vec<u64> = typing.strokes.iter().map(|s| s.pause).collect();
    assert_eq!(pauses, vec![0, 0, 300, 0, 0, 0, 0, 300]);
    for ch in [".", ",", ";", ":", "!", "?"] {
        assert_eq!(type_text(ch, 1, 0, 7).strokes[0].pause, 7);
    }
    assert_eq!(type_text("-", 1, 0, 7).strokes[0].pause, 0);
}

#[test]
fn coloured_typing_changes_colours_once() {
    let tokens = highlight_command("ls -l");
    let typing = type_text_highlighted(&tokens, 5, 0, 9);
    assert_eq!(shown(&typing), "\x1B[1;37mls\x1B[0m \x1B[33m-l\x1B[0m");
    assert_eq!(typing.strokes.len(), 5);
    assert_eq!(typing.tail, HL_RESET);
    assert_eq!(shown(&type_text_highlighted(&vec![], 5, 0, 9)), HL_RESET);
}

#[test]
fn strokes_take_at_least_five_milliseconds() {
    let plain = Keystroke {
        text: "a".to_string(),
        pause: 0,
    };
    assert_eq!(plain.delay(0), Some(5));
    assert_eq!(plain.delay(5), Some(5));
    assert_eq!(plain.delay(60), Some(60));
    let stop = Keystroke {
        text: ".".to_string(),
        pause: 200,
    };
    assert_eq!(stop.delay(3), Some(205));
    assert_eq!(stop.delay(u64::MAX), None);
}

#[test]
fn substitution_takes_names_in_the_order_they_were_set() {
    let mut vars = Vars::new();
    vars.insert("a".to_string(), "{b}".to_string());
    vars.insert("b".to_string(), "x".to_string());
    assert_eq!(substitute_vars("{a} {b} {c}", &vars), "x x {c}");
}

#[test]
fn substitution_order_does_not_matter_for_plain_values() {
    let mut one = Vars::new();
    one.insert("a".to_string(), "1".to_string());
    one.insert("b".to_string(), "2".to_string());
    let mut two = Vars::new();
    two.insert("b".to_string(), "2".to_string());
    two.insert("a".to_string(), "1".to_string());
    assert_eq!(substitute_vars("{a}{b}{a}", &one), "121");
    assert_eq!(substitute_vars("{a}{b}{a}", &two), "121");
    assert_eq!(substitute_vars("}{a}} {b", &one), "}1} {b");
    assert_eq!(substitute_vars("}{a}} {b", &two), "}1} {b");
}

#[test]
fn headers_are_as_wide_as_the_name_has_bytes() {
    assert_eq!(
        chapter_header("Intro"),
        "\x1B[1;36m┌─────────┐\x1B[0m\n\x1B[1;36m│  Intro  │\x1B[0m\n\x1B[1;36m└─────────┘\x1B[0m\n\n"
    );
    let header = chapter_header("é");
    assert_eq!(header.matches('─').count(), 2 * 6);
}

#[test]
fn typing_on_keeps_colours() {
    let text = "ls -l \"a b\" | $HOME ${x} && b > c # d";
    let all = colors(text);
    for (n, _) in text.char_indices() {
        assert_eq!(colors(&text[..n]), all[..n]);
    }
}

#[test]
fn joined_commands_are_coloured_one_by_one() {
    for op in [";", "|"] {
        let mut expected = colors("echo $A");
        expected.extend([HL_CYAN, HL_RESET]);
        expected.extend(colors("ls -l"));
        assert_eq!(colors(&format!("echo $A{} ls -l", op)), expected);
    }
    assert_eq!(colors("ls -l; x")[5], HL_YELLOW);
}

#[test]
fn colours_expand_piece_by_piece() {
    let text = "{red}a{bold}";
    for n in [0, 5, 6, 12] {
        let pieces = format!("{}{}", expand_colors(&text[..n]), expand_colors(&text[n..]));
        assert_eq!(pieces, expand_colors(text));
    }
    assert_eq!(format!("{}{}", expand_colors("{re"), expand_colors("d}")), "{red}");
}

#[test]
fn substitution_is_final_for_plain_values() {
    let mut vars = Vars::new();
    vars.insert("a".to_string(), "1".to_string());
    vars.insert("b".to_string(), "a".to_string());
    let once = substitute_vars("{a} {b} {c} }{a", &vars);
    assert_eq!(once, "1 a {c} }{a");
    assert_eq!(substitute_vars(&once, &vars), once);
}
