//! A preview of a demo that runs nothing, and the headers of chapters.

use crate::color::{expand_colors, expanded, style_code, style_to_ansi};
use crate::config::{texts_view, CommandView, CommentView, Config, ConfigView, StepView};
use crate::demo::{resolve_demo, resolved, CommandRef, DemoView, ResolvedDemo, StepRef};
use crate::text::{decimal, decimal_text, lines, lines_from};
use vstd::prelude::*;
use vstd::utf8::encode_utf8;

verus! {

broadcast use vstd::seq::group_seq_axioms;

// ---------------------------------------------------------------------------
// Chapter headers
// ---------------------------------------------------------------------------

/// A bar of `n` strokes.
pub open spec fn bar(n: nat) -> Seq<char> {
    Seq::new(n, |i: int| '─')
}

/// The box that announces a chapter. It is as wide as the name has bytes in UTF-8, and four
/// more.
pub open spec fn header(name: Seq<char>) -> Seq<char> {
    let width = encode_utf8(name).len() + 4;
    "\x1B[1;36m┌"@ + bar(width) + "┐\x1B[0m\n"@ + "\x1B[1;36m│  "@ + name
        + "  │\x1B[0m\n"@ + "\x1B[1;36m└"@ + bar(width) + "┘\x1B[0m\n\n"@
}

/// The box that announces a chapter.
pub fn chapter_header(name: &str) -> (text: String)
    ensures
        text@ == header(name@),
{
    let n: usize = name.as_bytes().len();
    let mut line = String::new();
    line.append("────");
    proof {
        reveal_strlit("────");
        assert(line@ =~= bar(4));
    }
    let mut i: usize = 0;
    while i < n
        invariant
            i <= n,
            line@ == bar(i as nat + 4),
        decreases n - i,
    {
        line.push('─');
        i += 1;
        assert(line@ =~= bar(i as nat + 4));
    }
    let mut text = String::new();
    text.append("\x1B[1;36m┌");
    text.append(line.as_str());
    text.append("┐\x1B[0m\n");
    text.append("\x1B[1;36m│  ");
    text.append(name);
    text.append("  │\x1B[0m\n");
    text.append("\x1B[1;36m└");
    text.append(line.as_str());
    text.append("┘\x1B[0m\n\n");
    assert(text@ =~= header(name@));
    text
}

// ---------------------------------------------------------------------------
// What a preview says
// ---------------------------------------------------------------------------

/// A note if there is reason for it.
pub open spec fn note_if(reason: bool, note: Seq<char>) -> Seq<Seq<char>> {
    if reason {
        seq![note]
    } else {
        Seq::empty()
    }
}

/// What is special about a command.
pub open spec fn annotations(cmd: CommandView) -> Seq<Seq<char>> {
    note_if(!cmd.execute, "no-exec"@) + note_if(cmd.fake_output is Some, "fake-output"@) + note_if(
        cmd.wait_for is Some,
        "wait-for"@,
    ) + note_if(cmd.interact is Some, "interactive"@) + note_if(cmd.wait_before, "wait-before"@)
        + note_if(cmd.wait_after, "wait-after"@) + note_if(
        cmd.if_condition is Some || cmd.unless is Some,
        "conditional"@,
    ) + note_if(cmd.capture is Some, "capture"@) + note_if(cmd.hidden, "hidden"@)
}

/// Texts with commas between them.
pub open spec fn listed(texts: Seq<Seq<char>>) -> Seq<char>
    decreases texts.len(),
{
    if texts.len() == 0 {
        Seq::empty()
    } else if texts.len() == 1 {
        texts[0]
    } else {
        listed(texts.drop_last()) + ", "@ + texts.last()
    }
}

/// Each text on a line of its own, between `open` and `close`.
pub open spec fn each_line(texts: Seq<Seq<char>>, open: Seq<char>, close: Seq<char>) -> Seq<char>
    decreases texts.len(),
{
    if texts.len() == 0 {
        Seq::empty()
    } else {
        each_line(texts.drop_last(), open, close) + open + texts.last() + close
    }
}

/// What a preview says of a command.
pub open spec fn command_preview(prompt: Seq<char>, cmd: CommandView) -> Seq<char> {
    let notes = annotations(cmd);
    let remarks = if notes.len() > 0 {
        "  \x1B[2m["@ + listed(notes) + "]\x1B[0m"@
    } else {
        Seq::empty()
    };
    let output = match cmd.fake_output {
        Some(fake) => each_line(lines_from(fake, 0), "  \x1B[2m▸ "@, "\x1B[0m\n"@),
        None => Seq::empty(),
    };
    prompt + cmd.text + remarks + "\n"@ + output
}

/// What a preview says of a step.
pub open spec fn step_preview(prompt: Seq<char>, step: StepView) -> Seq<char> {
    match step {
        StepView::Directive(directive) => "\x1B[2m["@ + directive + "]\x1B[0m\n"@,
        StepView::TimedPause(ms) => "\x1B[2m[pause: "@ + decimal(ms as nat) + "ms]\x1B[0m\n"@,
        StepView::Ask(message, capture) => "\x1B[33m[ask]\x1B[0m "@ + message + " \x1B[2m→ "@
            + capture + "\x1B[0m\n"@,
        StepView::Input(message, capture, default) => "\x1B[33m[input]\x1B[0m "@ + message
            + " \x1B[2m→ "@ + capture + (match default {
            Some(value) => " \x1B[2m(default: "@ + value + ")\x1B[0m"@,
            None => Seq::empty(),
        }) + "\x1B[0m\n"@,
        StepView::Comment(comment) => prompt + style_code(comment.style) + comment.comment
            + "\x1B[0m\n"@,
        StepView::Command(cmd) => command_preview(prompt, cmd),
    }
}

/// Step `i` is where chapter `chapter` starts.
pub open spec fn chapter_due(demo: DemoView, i: int, chapter: int) -> bool {
    0 <= chapter < demo.chapters.len() && demo.chapters[chapter].start == i
}

/// What a preview says of the steps from step `i` on, when `chapter` is the next chapter.
pub open spec fn steps_preview(demo: DemoView, prompt: Seq<char>, i: int, chapter: int) -> Seq<char>
    decreases demo.steps.len() - i,
{
    if i >= demo.steps.len() {
        Seq::empty()
    } else if chapter_due(demo, i, chapter) {
        "\x1B[1;36m── "@ + demo.chapters[chapter].name + " ──\x1B[0m\n"@ + step_preview(
            prompt,
            demo.steps[i],
        ) + steps_preview(demo, prompt, i + 1, chapter + 1)
    } else {
        step_preview(prompt, demo.steps[i]) + steps_preview(demo, prompt, i + 1, chapter)
    }
}

/// The preview of a demo: its setup commands, its steps and its teardown commands.
pub open spec fn preview(config: ConfigView) -> Seq<char> {
    let setup = match config.setup {
        Some(commands) => "\x1B[2m[setup]\x1B[0m\n"@ + each_line(commands, "  "@, "\n"@) + "\n"@,
        None => Seq::empty(),
    };
    let teardown = match config.teardown {
        Some(commands) => "\n\x1B[2m[teardown]\x1B[0m\n"@ + each_line(commands, "  "@, "\n"@),
        None => Seq::empty(),
    };
    setup + steps_preview(resolved(config), expanded(config.prompt), 0, 0) + teardown
}

// ---------------------------------------------------------------------------
// Writing the preview
// ---------------------------------------------------------------------------

fn append_each_line(text: &mut String, texts: &Vec<String>, open: &str, close: &str)
    ensures
        final(text)@ == old(text)@ + each_line(texts_view(texts@), open@, close@),
{
    let ghost before = text@;
    let ghost all = texts_view(texts@);
    let mut i: usize = 0;
    assert(text@ =~= before + each_line(all.take(0), open@, close@));
    while i < texts.len()
        invariant
            i <= texts@.len(),
            all == texts_view(texts@),
            text@ == before + each_line(all.take(i as int), open@, close@),
        decreases texts@.len() - i,
    {
        assert(all.take(i + 1).drop_last() =~= all.take(i as int));
        assert(all.take(i + 1).last() == texts@[i as int]@);
        text.append(open);
        text.append(texts[i].as_str());
        text.append(close);
        i += 1;
        assert(text@ =~= before + each_line(all.take(i as int), open@, close@));
    }
    assert(all.take(i as int) =~= all);
}

fn append_note(notes: &mut Vec<String>, reason: bool, note: &str)
    ensures
        texts_view(final(notes)@) == texts_view(old(notes)@) + note_if(reason, note@),
{
    let ghost before = notes@;
    if reason {
        notes.push(note.to_owned());
        assert(texts_view(notes@) =~= texts_view(before).push(note@));
    }
    assert(texts_view(notes@) =~= texts_view(before) + note_if(reason, note@));
}

fn annotate(cmd: &CommandRef) -> (notes: Vec<String>)
    ensures
        texts_view(notes@) == annotations(cmd@),
{
    let mut notes: Vec<String> = Vec::new();
    append_note(&mut notes, !cmd.execute, "no-exec");
    append_note(&mut notes, cmd.fake_output.is_some(), "fake-output");
    append_note(&mut notes, cmd.wait_for.is_some(), "wait-for");
    append_note(&mut notes, cmd.interact.is_some(), "interactive");
    append_note(&mut notes, cmd.wait_before, "wait-before");
    append_note(&mut notes, cmd.wait_after, "wait-after");
    append_note(&mut notes, cmd.if_condition.is_some() || cmd.unless.is_some(), "conditional");
    append_note(&mut notes, cmd.capture.is_some(), "capture");
    append_note(&mut notes, cmd.hidden, "hidden");
    assert(texts_view(notes@) =~= annotations(cmd@));
    notes
}

fn list(texts: &Vec<String>) -> (text: String)
    ensures
        text@ == listed(texts_view(texts@)),
{
    let ghost all = texts_view(texts@);
    let mut text = String::new();
    let mut i: usize = 0;
    assert(text@ =~= listed(all.take(0)));
    while i < texts.len()
        invariant
            i <= texts@.len(),
            all == texts_view(texts@),
            text@ == listed(all.take(i as int)),
        decreases texts@.len() - i,
    {
        assert(all.take(i + 1).drop_last() =~= all.take(i as int));
        assert(all.take(i + 1).last() == texts@[i as int]@);
        if i > 0 {
            text.append(", ");
        }
        text.append(texts[i].as_str());
        i += 1;
        assert(text@ =~= listed(all.take(i as int)));
    }
    assert(all.take(i as int) =~= all);
    text
}

fn append_command(text: &mut String, prompt: &str, cmd: &CommandRef)
    ensures
        final(text)@ == old(text)@ + command_preview(prompt@, cmd@),
{
    let ghost before = text@;
    text.append(prompt);
    text.append(cmd.text.as_str());
    let notes = annotate(cmd);
    if notes.len() > 0 {
        text.append("  \x1B[2m[");
        text.append(list(&notes).as_str());
        text.append("]\x1B[0m");
    }
    text.append("\n");
    if let Some(fake) = &cmd.fake_output {
        append_each_line(text, &lines(fake.as_str()), "  \x1B[2m▸ ", "\x1B[0m\n");
    }
    assert(text@ =~= before + command_preview(prompt@, cmd@));
}

fn append_step(text: &mut String, prompt: &str, step: &StepRef)
    ensures
        final(text)@ == old(text)@ + step_preview(prompt@, step@),
{
    let ghost before = text@;
    match step {
        StepRef::Directive(directive) => {
            text.append("\x1B[2m[");
            text.append(directive.as_str());
            text.append("]\x1B[0m\n");
        },
        StepRef::TimedPause(ms) => {
            text.append("\x1B[2m[pause: ");
            text.append(decimal_text(*ms).as_str());
            text.append("ms]\x1B[0m\n");
        },
        StepRef::Ask(message, capture) => {
            text.append("\x1B[33m[ask]\x1B[0m ");
            text.append(message.as_str());
            text.append(" \x1B[2m→ ");
            text.append(capture.as_str());
            text.append("\x1B[0m\n");
        },
        StepRef::Input(message, capture, default) => {
            text.append("\x1B[33m[input]\x1B[0m ");
            text.append(message.as_str());
            text.append(" \x1B[2m→ ");
            text.append(capture.as_str());
            if let Some(value) = default {
                text.append(" \x1B[2m(default: ");
                text.append(value.as_str());
                text.append(")\x1B[0m");
            }
            text.append("\x1B[0m\n");
        },
        StepRef::Comment(comment) => {
            text.append(prompt);
            text.append(
                match &comment.style {
                    Some(style) => style_to_ansi(Some(style.as_str())),
                    None => style_to_ansi(None),
                },
            );
            text.append(comment.comment.as_str());
            text.append("\x1B[0m\n");
        },
        StepRef::Command(cmd) => {
            append_command(text, prompt, cmd);
        },
    }
    assert(text@ =~= before + step_preview(prompt@, step@));
}

fn append_steps(text: &mut String, prompt: &str, demo: &ResolvedDemo)
    ensures
        final(text)@ == old(text)@ + steps_preview(demo@, prompt@, 0, 0),
{
    let ghost before = text@;
    let mut i: usize = 0;
    let mut chapter: usize = 0;
    while i < demo.steps.len()
        invariant
            i <= demo.steps@.len(),
            chapter <= demo.chapters@.len(),
            before + steps_preview(demo@, prompt@, 0, 0) == text@ + steps_preview(
                demo@,
                prompt@,
                i as int,
                chapter as int,
            ),
        decreases demo.steps@.len() - i,
    {
        let ghost rest = steps_preview(demo@, prompt@, i as int, chapter as int);
        let ghost so_far = text@;
        assert(demo@.steps[i as int] == demo.steps@[i as int].step@);
        if chapter < demo.chapters.len() && demo.chapters[chapter].start == i {
            assert(demo@.chapters[chapter as int] == demo.chapters@[chapter as int]@);
            text.append("\x1B[1;36m── ");
            text.append(demo.chapters[chapter].name.as_str());
            text.append(" ──\x1B[0m\n");
            chapter += 1;
        } else {
            assert(chapter < demo.chapters@.len() ==> demo@.chapters[chapter as int]
                == demo.chapters@[chapter as int]@);
        }
        append_step(text, prompt, &demo.steps[i].step);
        i += 1;
        assert(so_far + rest =~= text@ + steps_preview(
            demo@,
            prompt@,
            i as int,
            chapter as int,
        ));
    }
    assert(text@ + steps_preview(demo@, prompt@, i as int, chapter as int) =~= text@);
}

/// The preview of a demo. Nothing of the demo is run for it.
pub fn dry_run(config: &Config) -> (text: String)
    ensures
        text@ == preview(config@),
{
    let demo = resolve_demo(config);
    let prompt = expand_colors(config.prompt.as_str());
    let mut text = String::new();
    if let Some(setup) = &config.setup {
        text.append("\x1B[2m[setup]\x1B[0m\n");
        append_each_line(&mut text, setup, "  ", "\n");
        text.append("\n");
    }
    append_steps(&mut text, prompt.as_str(), &demo);
    if let Some(teardown) = &config.teardown {
        text.append("\n\x1B[2m[teardown]\x1B[0m\n");
        append_each_line(&mut text, teardown, "  ", "\n");
    }
    assert(text@ =~= preview(config@));
    text
}

// ---------------------------------------------------------------------------
// Laws
// ---------------------------------------------------------------------------

proof fn lemma_note_if(reason: bool, note: Seq<char>, wanted: Seq<char>)
    ensures
        note_if(reason, note).contains(wanted) == (reason && note == wanted),
{
    if reason {
        assert(note_if(reason, note)[0] == note);
    }
}

proof fn lemma_contains_in_sum(a: Seq<Seq<char>>, b: Seq<Seq<char>>, wanted: Seq<char>)
    ensures
        (a + b).contains(wanted) == (a.contains(wanted) || b.contains(wanted)),
{
    if a.contains(wanted) {
        let i = choose|i: int| 0 <= i < a.len() && a[i] == wanted;
        assert((a + b)[i] == wanted);
    }
    if b.contains(wanted) {
        let i = choose|i: int| 0 <= i < b.len() && b[i] == wanted;
        assert((a + b)[a.len() + i] == wanted);
    }
    if (a + b).contains(wanted) {
        let i = choose|i: int| 0 <= i < (a + b).len() && (a + b)[i] == wanted;
        if i < a.len() {
            assert(a[i] == wanted);
        } else {
            assert(b[i - a.len()] == wanted);
        }
    }
}

proof fn lemma_annotations(cmd: CommandView, wanted: Seq<char>)
    ensures
        annotations(cmd).contains(wanted) == ({
            ||| !cmd.execute && wanted == "no-exec"@
            ||| cmd.fake_output is Some && wanted == "fake-output"@
            ||| cmd.wait_for is Some && wanted == "wait-for"@
            ||| cmd.interact is Some && wanted == "interactive"@
            ||| cmd.wait_before && wanted == "wait-before"@
            ||| cmd.wait_after && wanted == "wait-after"@
            ||| (cmd.if_condition is Some || cmd.unless is Some) && wanted == "conditional"@
            ||| cmd.capture is Some && wanted == "capture"@
            ||| cmd.hidden && wanted == "hidden"@
        }),
{
    let a = note_if(!cmd.execute, "no-exec"@);
    let b = note_if(cmd.fake_output is Some, "fake-output"@);
    let c = note_if(cmd.wait_for is Some, "wait-for"@);
    let d = note_if(cmd.interact is Some, "interactive"@);
    let e = note_if(cmd.wait_before, "wait-before"@);
    let f = note_if(cmd.wait_after, "wait-after"@);
    let g = note_if(cmd.if_condition is Some || cmd.unless is Some, "conditional"@);
    let h = note_if(cmd.capture is Some, "capture"@);
    let i = note_if(cmd.hidden, "hidden"@);
    lemma_note_if(!cmd.execute, "no-exec"@, wanted);
    lemma_note_if(cmd.fake_output is Some, "fake-output"@, wanted);
    lemma_note_if(cmd.wait_for is Some, "wait-for"@, wanted);
    lemma_note_if(cmd.interact is Some, "interactive"@, wanted);
    lemma_note_if(cmd.wait_before, "wait-before"@, wanted);
    lemma_note_if(cmd.wait_after, "wait-after"@, wanted);
    lemma_note_if(cmd.if_condition is Some || cmd.unless is Some, "conditional"@, wanted);
    lemma_note_if(cmd.capture is Some, "capture"@, wanted);
    lemma_note_if(cmd.hidden, "hidden"@, wanted);
    lemma_contains_in_sum(a, b, wanted);
    lemma_contains_in_sum(a + b, c, wanted);
    lemma_contains_in_sum(a + b + c, d, wanted);
    lemma_contains_in_sum(a + b + c + d, e, wanted);
    lemma_contains_in_sum(a + b + c + d + e, f, wanted);
    lemma_contains_in_sum(a + b + c + d + e + f, g, wanted);
    lemma_contains_in_sum(a + b + c + d + e + f + g, h, wanted);
    lemma_contains_in_sum(a + b + c + d + e + f + g + h, i, wanted);
}

/// A preview tells of each manual pause of a command, before it and after it, and of no other.
pub proof fn law_pauses_are_annotated(cmd: CommandView)
    ensures
        annotations(cmd).contains("wait-before"@) == cmd.wait_before,
        annotations(cmd).contains("wait-after"@) == cmd.wait_after,
{
    lemma_annotations(cmd, "wait-before"@);
    lemma_annotations(cmd, "wait-after"@);
    reveal_strlit("no-exec");
    reveal_strlit("fake-output");
    reveal_strlit("wait-for");
    reveal_strlit("interactive");
    reveal_strlit("wait-before");
    reveal_strlit("wait-after");
    reveal_strlit("conditional");
    reveal_strlit("capture");
    reveal_strlit("hidden");
    assert("no-exec"@.len() == 7 && "capture"@.len() == 7 && "hidden"@.len() == 6);
    assert("wait-for"@.len() == 8 && "wait-after"@.len() == 10 && "wait-before"@.len() == 11);
    assert("fake-output"@.len() == 11 && "interactive"@.len() == 11 && "conditional"@.len() == 11);
    assert("wait-before"@[0] == 'w');
    assert("fake-output"@[0] == 'f');
    assert("interactive"@[0] == 'i');
    assert("conditional"@[0] == 'c');
}

/// An ordinary command stands in a preview as it is typed, with nothing added.
pub proof fn law_ordinary_commands_are_plain(prompt: Seq<char>, cmd: CommandView)
    requires
        cmd.execute,
        cmd.fake_output is None,
        cmd.wait_for is None,
        cmd.interact is None,
        !cmd.wait_before,
        !cmd.wait_after,
        cmd.if_condition is None,
        cmd.unless is None,
        cmd.capture is None,
        !cmd.hidden,
    ensures
        step_preview(prompt, StepView::Command(cmd)) == prompt + cmd.text + "\n"@,
{
    assert(annotations(cmd) =~= Seq::empty());
    assert(step_preview(prompt, StepView::Command(cmd)) =~= prompt + cmd.text + "\n"@);
}

/// What each kind of step looks like in a preview.
pub proof fn law_what_previews_say(
    prompt: Seq<char>,
    text: Seq<char>,
    name: Seq<char>,
    value: Seq<char>,
    ms: u64,
    comment: CommentView,
)
    ensures
        step_preview(prompt, StepView::Directive(text)) == "\x1B[2m["@ + text + "]\x1B[0m\n"@,
        step_preview(prompt, StepView::TimedPause(ms)) == "\x1B[2m[pause: "@ + decimal(ms as nat)
            + "ms]\x1B[0m\n"@,
        step_preview(prompt, StepView::Ask(text, name)) == "\x1B[33m[ask]\x1B[0m "@ + text
            + " \x1B[2m→ "@ + name + "\x1B[0m\n"@,
        step_preview(prompt, StepView::Input(text, name, None)) == "\x1B[33m[input]\x1B[0m "@ + text
            + " \x1B[2m→ "@ + name + "\x1B[0m\n"@,
        step_preview(prompt, StepView::Input(text, name, Some(value)))
            == "\x1B[33m[input]\x1B[0m "@ + text + " \x1B[2m→ "@ + name + " \x1B[2m(default: "@
            + value + ")\x1B[0m"@ + "\x1B[0m\n"@,
        step_preview(prompt, StepView::Comment(comment)) == prompt + style_code(comment.style)
            + comment.comment + "\x1B[0m\n"@,
{
    assert(step_preview(prompt, StepView::Input(text, name, None)) =~= "\x1B[33m[input]\x1B[0m "@
        + text + " \x1B[2m→ "@ + name + "\x1B[0m\n"@);
    assert(step_preview(prompt, StepView::Input(text, name, Some(value)))
        =~= "\x1B[33m[input]\x1B[0m "@ + text + " \x1B[2m→ "@ + name + " \x1B[2m(default: "@
        + value + ")\x1B[0m"@ + "\x1B[0m\n"@);
}

/// A command stands in a preview behind the prompt as it is written, with its annotations in
/// brackets behind it and its made-up output below.
pub proof fn law_commands_are_previewed_as_written(prompt: Seq<char>, cmd: CommandView)
    ensures
        ({
            let shown = step_preview(prompt, StepView::Command(cmd));
            let head = prompt + cmd.text;
            &&& shown.len() > head.len()
            &&& shown.take(head.len() as int) == head
            &&& annotations(cmd).len() > 0 ==> shown == head + "  \x1B[2m["@ + listed(
                annotations(cmd),
            ) + "]\x1B[0m\n"@ + (match cmd.fake_output {
                Some(fake) => each_line(lines_from(fake, 0), "  \x1B[2m▸ "@, "\x1B[0m\n"@),
                None => Seq::empty(),
            })
        }),
{
    let shown = step_preview(prompt, StepView::Command(cmd));
    let head = prompt + cmd.text;
    reveal_strlit("\n");
    reveal_strlit("]\x1B[0m");
    reveal_strlit("]\x1B[0m\n");
    assert("]\x1B[0m"@ + "\n"@ =~= "]\x1B[0m\n"@);
    assert(shown.take(head.len() as int) =~= head);
    if annotations(cmd).len() > 0 {
        assert(shown =~= head + "  \x1B[2m["@ + listed(annotations(cmd)) + ("]\x1B[0m"@ + "\n"@) + (
        match cmd.fake_output {
            Some(fake) => each_line(lines_from(fake, 0), "  \x1B[2m▸ "@, "\x1B[0m\n"@),
            None => Seq::empty(),
        }));
    }
}

/// A command is annotated with everything that is special about it, and with nothing else.
pub proof fn law_everything_special_is_annotated(cmd: CommandView)
    ensures
        annotations(cmd).contains("no-exec"@) == !cmd.execute,
        annotations(cmd).contains("fake-output"@) == (cmd.fake_output is Some),
        annotations(cmd).contains("wait-for"@) == (cmd.wait_for is Some),
        annotations(cmd).contains("interactive"@) == (cmd.interact is Some),
        annotations(cmd).contains("conditional"@) == (cmd.if_condition is Some || cmd.unless is Some),
        annotations(cmd).contains("capture"@) == (cmd.capture is Some),
        annotations(cmd).contains("hidden"@) == cmd.hidden,
{
    lemma_annotations(cmd, "no-exec"@);
    lemma_annotations(cmd, "fake-output"@);
    lemma_annotations(cmd, "wait-for"@);
    lemma_annotations(cmd, "interactive"@);
    lemma_annotations(cmd, "conditional"@);
    lemma_annotations(cmd, "capture"@);
    lemma_annotations(cmd, "hidden"@);
    reveal_strlit("no-exec");
    reveal_strlit("fake-output");
    reveal_strlit("wait-for");
    reveal_strlit("interactive");
    reveal_strlit("wait-before");
    reveal_strlit("wait-after");
    reveal_strlit("conditional");
    reveal_strlit("capture");
    reveal_strlit("hidden");
    assert("no-exec"@.len() == 7 && "capture"@.len() == 7 && "hidden"@.len() == 6);
    assert("wait-for"@.len() == 8 && "wait-after"@.len() == 10 && "wait-before"@.len() == 11);
    assert("fake-output"@.len() == 11 && "interactive"@.len() == 11 && "conditional"@.len() == 11);
    assert("wait-before"@[0] == 'w' && "fake-output"@[0] == 'f');
    assert("interactive"@[0] == 'i' && "conditional"@[0] == 'c');
    assert("no-exec"@[0] == 'n' && "capture"@[0] == 'c');
}

/// Annotations are listed with commas between them, and lines follow each other.
pub proof fn law_how_texts_are_listed(
    texts: Seq<Seq<char>>,
    last: Seq<char>,
    open: Seq<char>,
    close: Seq<char>,
)
    ensures
        listed(Seq::empty()) == Seq::<char>::empty(),
        listed(seq![last]) == last,
        texts.len() > 0 ==> listed(texts.push(last)) == listed(texts) + ", "@ + last,
        each_line(Seq::empty(), open, close) == Seq::<char>::empty(),
        each_line(texts.push(last), open, close) == each_line(texts, open, close) + open + last
            + close,
{
    assert(texts.push(last).drop_last() =~= texts);
}

/// A preview goes step by step: a chapter's name stands before the step that it starts at, each
/// step stands for itself, and every step is there.
pub proof fn law_previews_go_step_by_step(
    demo: DemoView,
    prompt: Seq<char>,
    i: int,
    chapter: int,
)
    requires
        0 <= i,
        0 <= chapter <= demo.chapters.len(),
    ensures
        i >= demo.steps.len() ==> steps_preview(demo, prompt, i, chapter) == Seq::<char>::empty(),
        i < demo.steps.len() && chapter < demo.chapters.len() && demo.chapters[chapter].start == i
            ==> steps_preview(demo, prompt, i, chapter) == "\x1B[1;36m── "@
            + demo.chapters[chapter].name + " ──\x1B[0m\n"@ + step_preview(prompt, demo.steps[i])
            + steps_preview(demo, prompt, i + 1, chapter + 1),
        i < demo.steps.len() && !(chapter < demo.chapters.len() && demo.chapters[chapter].start
            == i) ==> steps_preview(demo, prompt, i, chapter) == step_preview(
            prompt,
            demo.steps[i],
        ) + steps_preview(demo, prompt, i + 1, chapter),
{
}

/// A preview has the setup commands before the steps and the teardown commands behind them, each
/// under its heading and on a line of its own, and the steps at the expanded prompt.
pub proof fn law_previews_have_setup_and_teardown(config: ConfigView)
    ensures
        ({
            let steps = steps_preview(resolved(config), expanded(config.prompt), 0, 0);
            let setup = match config.setup {
                Some(list) => "\x1B[2m[setup]\x1B[0m\n"@ + each_line(list, "  "@, "\n"@) + "\n"@,
                None => Seq::empty(),
            };
            let teardown = match config.teardown {
                Some(list) => "\n\x1B[2m[teardown]\x1B[0m\n"@ + each_line(list, "  "@, "\n"@),
                None => Seq::empty(),
            };
            preview(config) == setup + steps + teardown
        }),
{
}

/// The box of a chapter holds its name, two blanks from the bars, and the bars above and below it
/// have a stroke for each byte of the name and four more.
pub proof fn law_chapter_boxes(name: Seq<char>, strokes: Seq<char>)
    requires
        strokes.len() == encode_utf8(name).len() + 4,
        forall|i: int| 0 <= i < strokes.len() ==> #[trigger] strokes[i] == '─',
    ensures
        header(name) == "\x1B[1;36m┌"@ + strokes + "┐\x1B[0m\n"@ + "\x1B[1;36m│  "@ + name
            + "  │\x1B[0m\n"@ + "\x1B[1;36m└"@ + strokes + "┘\x1B[0m\n\n"@,
{
    assert(bar(strokes.len()) =~= strokes);
}

}
