//! What a demo promises, step by step, in terms of its config and of what is replied.

use crate::bytes::text_of;
use crate::color::{expanded, style_code};
use crate::conditions::conditions_hold;
use crate::config::{CommandView, CommentView, ConfigView, StepView};
use crate::demo::{law_chapters_in_order, resolved};
use crate::dry_run::header;
use crate::highlight::{alnum_marks, color_code, painted, Color};
use crate::json_path::extracted;
use crate::laws::{at_command, played};
use crate::nav::{destination, law_destination_exists, nav_of, NavAction};
use crate::pattern::{compiled, group_text};
use crate::play::{
    coloured, fits, keys_in, law_chapters_start_at_steps, law_state_goes_on_to_fit, opening,
    respond, wanted, ActionView, Phase, ReplyView, RunMode, SessionView,
};
use crate::run::{AttendedView, OutcomeView, OutputView, RanView};
use crate::snapshot::reported_env;
use crate::substitute::substituted;
use crate::text::{signed_decimal, trimmed};
use crate::timing::{or_global, speed_delay};
use crate::typing::{
    law_coloured_text_appears, law_colours_are_switched_where_they_change, KeystrokeView,
};
use crate::vars::{bindings, distinct, law_put, law_without, settled};
use vstd::prelude::*;

verus! {

broadcast use vstd::seq::group_seq_axioms;

/// The keys in a reply lead to this chapter, if to any.
pub open spec fn leads_to(config: ConfigView, state: SessionView, reply: ReplyView) -> Option<int> {
    destination(resolved(config).chapters, state.idx, asked_for(config, reply))
}

/// What the keys in a reply ask for.
pub open spec fn asked_for(config: ConfigView, reply: ReplyView) -> NavAction {
    let keys = match reply {
        ReplyView::Keys(keys) => keys,
        _ => Seq::empty(),
    };
    nav_of(resolved(config).chapters.len() > 0, keys)
}

// ---------------------------------------------------------------------------
// Pausing
// ---------------------------------------------------------------------------

/// A timed pause sleeps for its own time, whether or not the demo advances by itself, and then
/// the next step comes.
pub proof fn law_timed_pauses_sleep_their_time(
    config: ConfigView,
    state: SessionView,
    first: ReplyView,
    second: ReplyView,
    ms: u64,
)
    requires
        state.phase == Phase::Begin,
        resolved(config).steps[state.idx] == StepView::TimedPause(ms),
    ensures
        ({
            let held = respond(config, state, first).0;
            &&& respond(config, state, first).1 == (if state.prompt_shown {
                Seq::<OutputView>::empty()
            } else {
                seq![OutputView::Stdout(expanded(config.prompt))]
            })
            &&& wanted(config, held) == ActionView::Sleep(ms)
            &&& respond(config, held, second) == (
                SessionView {
                    idx: state.idx + 1,
                    phase: Phase::Head,
                    prompt_shown: true,
                    ..state
                },
                Seq::<OutputView>::empty(),
            )
        }),
{
}

/// A bare pause shows the prompt and waits for Enter, or for the global time where there is one;
/// then the next step comes.
pub proof fn law_bare_pauses_hold(
    config: ConfigView,
    state: SessionView,
    first: ReplyView,
    second: ReplyView,
)
    requires
        state.phase == Phase::Begin,
        resolved(config).steps[state.idx] == StepView::Directive("pause"@),
    ensures
        ({
            let held = respond(config, state, first).0;
            &&& respond(config, state, first).1 == seq![
                OutputView::Stdout(expanded(config.prompt)),
            ]
            &&& config.auto_advance is None ==> wanted(config, held) == ActionView::AwaitEnter
            &&& config.auto_advance matches Some(ms) ==> wanted(config, held)
                == ActionView::Sleep(ms)
            &&& respond(config, held, second) == (
                SessionView {
                    idx: state.idx + 1,
                    phase: Phase::Head,
                    prompt_shown: true,
                    ..state
                },
                Seq::<OutputView>::empty(),
            )
        }),
{
}

/// The directive `clear` clears the screen, and with it the prompt.
pub proof fn law_clear_clears(config: ConfigView, state: SessionView, reply: ReplyView)
    requires
        state.phase == Phase::Begin,
        resolved(config).steps[state.idx] == StepView::Directive("clear"@),
    ensures
        respond(config, state, reply) == (
            SessionView {
                idx: state.idx + 1,
                phase: Phase::Head,
                prompt_shown: false,
                ..state
            },
            seq![OutputView::Stdout("\x1B[2J\x1B[H"@)],
        ),
{
    reveal_strlit("clear");
    reveal_strlit("pause");
    assert("clear"@[0] == 'c');
    assert("pause"@[0] == 'p');
}

/// Any other directive ends the demo with a complaint and exit code one.
pub proof fn law_unknown_directives_end_the_demo(
    config: ConfigView,
    state: SessionView,
    reply: ReplyView,
    directive: Seq<char>,
)
    requires
        state.phase == Phase::Begin,
        resolved(config).steps[state.idx] == StepView::Directive(directive),
        directive != "pause"@,
        directive != "clear"@,
    ensures
        respond(config, state, reply).1 == seq![
            OutputView::Stderr("[demonator] unknown directive: "@ + directive + "\n"@),
        ],
        wanted(config, respond(config, state, reply).0) == ActionView::Exit(1),
{
}

// ---------------------------------------------------------------------------
// Questions and comments
// ---------------------------------------------------------------------------

/// A yes-or-no question is put, a line is read, and the next step comes. The variable becomes
/// `y` on `y` or `yes` in letters of either case, and is unset on anything else; nothing else
/// changes.
pub proof fn law_yes_or_no_questions(
    config: ConfigView,
    state: SessionView,
    first: ReplyView,
    line: Seq<char>,
    message: Seq<char>,
    name: Seq<char>,
)
    requires
        distinct(state.vars),
        state.phase == Phase::Begin,
        resolved(config).steps[state.idx] == StepView::Ask(message, name),
    ensures
        ({
            let asked = respond(config, state, first).0;
            let after = respond(config, asked, ReplyView::Line(line)).0;
            let answer = trimmed(line);
            let lower = |c: char, l: char, u: char| c == l || c == u;
            let yes = (answer.len() == 1 && lower(answer[0], 'y', 'Y')) || (answer.len() == 3
                && lower(answer[0], 'y', 'Y') && lower(answer[1], 'e', 'E') && lower(
                answer[2],
                's',
                'S',
            ));
            &&& respond(config, state, first).1 == seq![
                OutputView::Stdout(
                    "\x1B[33m?\x1B[0m "@ + message + " \x1B[2m[y/N]\x1B[0m "@,
                ),
            ]
            &&& wanted(config, asked) == ActionView::AwaitLine
            &&& respond(config, asked, ReplyView::Line(line)).1 == Seq::<OutputView>::empty()
            &&& after.idx == state.idx + 1
            &&& after.phase == Phase::Head
            &&& after.env == state.env
            &&& after.chapter == state.chapter
            &&& after.prompt_shown == state.prompt_shown
            &&& bindings(after.vars) == (if yes {
                bindings(state.vars).insert(name, "y"@)
            } else {
                bindings(state.vars).remove(name)
            })
        }),
{
    law_put(state.vars, name, "y"@);
    law_without(state.vars, name);
}

/// A question is put with its default, a line is read, and the next step comes. The variable
/// becomes the answer without the white space around it; an empty answer gives it the default,
/// or unsets it where there is none.
pub proof fn law_open_questions(
    config: ConfigView,
    state: SessionView,
    first: ReplyView,
    line: Seq<char>,
    message: Seq<char>,
    name: Seq<char>,
    default: Option<Seq<char>>,
)
    requires
        distinct(state.vars),
        state.phase == Phase::Begin,
        resolved(config).steps[state.idx] == StepView::Input(message, name, default),
    ensures
        ({
            let asked = respond(config, state, first).0;
            let after = respond(config, asked, ReplyView::Line(line)).0;
            let hint = match default {
                Some(value) => value,
                None => "enter"@,
            };
            &&& respond(config, state, first).1 == seq![
                OutputView::Stdout(
                    "\x1B[33m?\x1B[0m "@ + message + " \x1B[2m["@ + hint + "]\x1B[0m "@,
                ),
            ]
            &&& wanted(config, asked) == ActionView::AwaitLine
            &&& respond(config, asked, ReplyView::Line(line)).1 == Seq::<OutputView>::empty()
            &&& after.idx == state.idx + 1
            &&& after.phase == Phase::Head
            &&& after.env == state.env
            &&& after.chapter == state.chapter
            &&& after.prompt_shown == state.prompt_shown
            &&& bindings(after.vars) == (if trimmed(line).len() > 0 {
                bindings(state.vars).insert(name, trimmed(line))
            } else if default is Some {
                bindings(state.vars).insert(name, default->0)
            } else {
                bindings(state.vars).remove(name)
            })
        }),
{
    law_put(state.vars, name, trimmed(line));
    if default is Some {
        law_put(state.vars, name, default->0);
    }
    law_without(state.vars, name);
}

/// A comment stands at the prompt in its style and is typed as it is written, at its own pace or
/// else the global one. It uses the prompt up, and the next step comes.
pub proof fn law_comments_are_typed_at_the_prompt(
    config: ConfigView,
    state: SessionView,
    first: ReplyView,
    second: ReplyView,
    comment: CommentView,
)
    requires
        state.phase == Phase::Begin,
        resolved(config).steps[state.idx] == StepView::Comment(comment),
    ensures
        ({
            let begun = respond(config, state, first).0;
            &&& respond(config, state, first).1 == (if state.prompt_shown {
                seq![OutputView::Stdout(style_code(comment.style))]
            } else {
                seq![
                    OutputView::Stdout(expanded(config.prompt)),
                    OutputView::Stdout(style_code(comment.style)),
                ]
            })
            &&& wanted(config, begun) matches ActionView::Type(typing) && {
                &&& shows(typing.strokes, comment.comment)
                &&& typing.tail == Seq::<char>::empty()
                &&& typing.delay == pace(comment.speed, comment.delay, config)
                &&& typing.jitter == (if comment.jitter is Some {
                    comment.jitter->0
                } else {
                    config.jitter
                })
                &&& pauses(typing.strokes, comment.comment, if comment.pause is Some {
                    comment.pause->0
                } else {
                    config.pause
                })
                &&& forall|i: int|
                    0 <= i < typing.strokes.len() ==> (#[trigger] typing.strokes[i]).text.len()
                        == 1
            }
            &&& respond(config, begun, second) == (
                SessionView {
                    idx: state.idx + 1,
                    phase: Phase::Head,
                    prompt_shown: false,
                    ..state
                },
                seq![OutputView::Stdout("\x1B[0m\n"@)],
            )
        }),
{
    lemma_pace_fits(comment.speed, config);
    let out = respond(config, state, first).1;
    if state.prompt_shown {
        assert(out =~= seq![OutputView::Stdout(style_code(comment.style))]);
    } else {
        assert(out =~= seq![
            OutputView::Stdout(expanded(config.prompt)),
            OutputView::Stdout(style_code(comment.style)),
        ]);
    }
}

// ---------------------------------------------------------------------------
// Typing
// ---------------------------------------------------------------------------

/// Each key stroke ends with the character of `text` at its place.
pub open spec fn shows(strokes: Seq<KeystrokeView>, text: Seq<char>) -> bool {
    &&& strokes.len() == text.len()
    &&& forall|i: int|
        0 <= i < text.len() ==> (#[trigger] strokes[i]).text.len() > 0 && strokes[i].text.last()
            == text[i]
}

/// The key strokes pause at punctuation, and nowhere else.
pub open spec fn pauses(strokes: Seq<KeystrokeView>, text: Seq<char>, pause: u64) -> bool {
    forall|i: int|
        0 <= i < text.len() ==> (#[trigger] strokes[i]).pause == (if text[i] == '.' || text[i]
            == ',' || text[i] == ';' || text[i] == ':' || text[i] == '!' || text[i] == '?' {
            pause
        } else {
            0
        })
}

/// The delay that a text is typed with: by its own speed, else by the global speed, else its own
/// delay, else the global delay.
pub open spec fn pace(speed: Option<u64>, delay: Option<u64>, config: ConfigView) -> int {
    if speed is Some {
        speed_delay(speed->0 as nat) as int
    } else if config.speed is Some {
        speed_delay(config.speed->0 as nat) as int
    } else if delay is Some {
        delay->0 as int
    } else {
        config.delay as int
    }
}

proof fn lemma_speed_delay_fits(speed: u64)
    ensures
        1 <= speed_delay(speed as nat) <= 1000,
{
    if speed > 0 {
        let s = speed as int;
        assert((2000 + s) / (2 * s) <= 1000 && (2000 + s) / (2 * s) >= 0) by (nonlinear_arith)
            requires
                s >= 1,
        ;
    }
}


proof fn lemma_pace_fits(speed: Option<u64>, config: ConfigView)
    ensures
        speed matches Some(s) ==> 1 <= speed_delay(s as nat) <= 1000,
        config.speed matches Some(s) ==> 1 <= speed_delay(s as nat) <= 1000,
{
    if speed is Some {
        lemma_speed_delay_fits(speed->0);
    }
    if config.speed is Some {
        lemma_speed_delay_fits(config.speed->0);
    }
}

/// A command is typed at its own pace or else the global one, with a pause at punctuation. Where
/// colours are off, nothing but its characters appears.
pub proof fn law_commands_are_typed(config: ConfigView, state: SessionView, cmd: CommandView)
    requires
        state.phase == Phase::CommandTyping,
        at_command(config, state, cmd),
    ensures
        wanted(config, state) matches ActionView::Type(typing) && {
            let text = typed_characters(typing.strokes);
            &&& shows(typing.strokes, text)
            &&& typing.delay == pace(cmd.speed, cmd.delay, config)
            &&& typing.jitter == (if cmd.jitter is Some {
                cmd.jitter->0
            } else {
                config.jitter
            })
            &&& pauses(typing.strokes, text, if cmd.pause is Some {
                cmd.pause->0
            } else {
                config.pause
            })
            &&& !config.highlight ==> typing.tail == Seq::<char>::empty() && forall|i: int|
                0 <= i < typing.strokes.len() ==> (#[trigger] typing.strokes[i]).text.len() == 1
            &&& config.highlight ==> typing.tail == "\x1B[0m"@
        },
{
    lemma_pace_fits(cmd.speed, config);
    match wanted(config, state) {
        ActionView::Type(typing) => {
            let text = typed_characters(typing.strokes);
            let filled = substituted(cmd.text, state.vars);
            lemma_typed_command(config, state, cmd);
            assert(text == filled);
        },
        _ => {},
    }
}

/// The last character of each key stroke.
pub open spec fn typed_characters(strokes: Seq<KeystrokeView>) -> Seq<char> {
    strokes.map_values(|stroke: KeystrokeView| stroke.text.last())
}

proof fn lemma_typed_command(config: ConfigView, state: SessionView, cmd: CommandView)
    requires
        state.phase == Phase::CommandTyping,
        at_command(config, state, cmd),
    ensures
        wanted(config, state) matches ActionView::Type(typing) && {
            let filled = substituted(cmd.text, state.vars);
            &&& typed_characters(typing.strokes) == filled
            &&& shows(typing.strokes, filled)
        },
{
    match wanted(config, state) {
        ActionView::Type(typing) => {
            let filled = substituted(cmd.text, state.vars);
            if config.highlight {
                let tokens = coloured(filled);
                assert forall|i: int| 0 <= i < filled.len() implies (
                #[trigger] typing.strokes[i]).text.len() > 0 && typing.strokes[i].text.last()
                    == filled[i] by {
                    law_coloured_text_appears(
                        tokens,
                        or_global(cmd.pause, config.pause),
                        i,
                    );
                }
            }
            assert(typed_characters(typing.strokes) =~= filled);
        },
        _ => {},
    }
}

/// The shell runs what was typed: whichever way a command is run, its script is the text that was
/// typed for it, with nothing but the report of the environment behind it.
pub proof fn law_commands_are_run_as_typed(
    config: ConfigView,
    typing: SessionView,
    running: SessionView,
    cmd: CommandView,
)
    requires
        at_command(config, typing, cmd),
        at_command(config, running, cmd),
        typing.phase == Phase::CommandTyping,
        running.phase == Phase::Running || running.phase == Phase::QuietRun || running.phase
            == Phase::HiddenRun,
        running.vars == typing.vars,
    ensures
        wanted(config, typing) matches ActionView::Type(keys) && {
            let script = typed_characters(keys.strokes)
                + "\n__demonator_status=$?\nenv -0 > \"$DEMONATOR_ENV_FILE\"\nexit \"$__demonator_status\""@;
            &&& wanted(config, running) matches ActionView::Run(job, _) ==> job.script == script
            &&& wanted(config, running) matches ActionView::Watch(job, _) ==> job.script == script
            &&& wanted(config, running) matches ActionView::Converse(job, _) ==> job.script
                == script
        },
{
    lemma_typed_command(config, typing, cmd);
}

/// What is typed is the command itself where it holds no variable in braces, and its variables
/// are filled in otherwise: what is typed is the text that `substitute_vars` gives.
pub proof fn law_typed_text_has_its_variables(
    config: ConfigView,
    state: SessionView,
    cmd: CommandView,
)
    requires
        state.phase == Phase::CommandTyping,
        at_command(config, state, cmd),
    ensures
        wanted(config, state) matches ActionView::Type(typing) && typed_characters(typing.strokes)
            == substituted(cmd.text, state.vars),
{
    lemma_typed_command(config, state, cmd);
}

// ---------------------------------------------------------------------------
// Running
// ---------------------------------------------------------------------------

/// A command that is shown starts at the prompt, and waits for Enter first if that is asked for.
pub proof fn law_shown_commands_start_at_the_prompt(
    config: ConfigView,
    state: SessionView,
    first: ReplyView,
    second: ReplyView,
    cmd: CommandView,
)
    requires
        state.phase == Phase::Begin,
        at_command(config, state, cmd),
        !cmd.hidden,
        conditions_hold(cmd.if_condition, cmd.unless, state.vars),
    ensures
        ({
            let begun = respond(config, state, first).0;
            let ready = SessionView {
                phase: Phase::CommandTyping,
                prompt_shown: false,
                ..state
            };
            &&& respond(config, state, first).1 == (if state.prompt_shown {
                Seq::<OutputView>::empty()
            } else {
                seq![OutputView::Stdout(expanded(config.prompt))]
            })
            &&& !cmd.wait_before ==> begun == ready
            &&& cmd.wait_before ==> {
                &&& wanted(config, begun) == ActionView::AwaitEnter
                &&& respond(config, begun, second) == (ready, Seq::<OutputView>::empty())
            }
        }),
{
}

/// A typed command goes on at once where it has a time to advance by itself, its own or the
/// global one; elsewhere it waits for keys.
pub proof fn law_typed_commands_wait_or_advance(
    config: ConfigView,
    state: SessionView,
    reply: ReplyView,
    cmd: CommandView,
)
    requires
        state.phase == Phase::CommandTyping,
        at_command(config, state, cmd),
    ensures
        cmd.wait is Some || config.auto_advance is Some ==> respond(config, state, reply) == (
            SessionView { phase: Phase::Running, ..state },
            seq![OutputView::Stdout("\n"@)],
        ),
        cmd.wait is None && config.auto_advance is None ==> respond(config, state, reply) == (
            SessionView { phase: Phase::Choice, ..state },
            Seq::<OutputView>::empty(),
        ) && wanted(config, respond(config, state, reply).0) == ActionView::AwaitInput,
{
}

/// Enter alone runs the command that was typed, with or without chapters: a newline is printed,
/// and the command runs.
pub proof fn law_enter_runs_the_command(
    config: ConfigView,
    state: SessionView,
    reply: ReplyView,
    cmd: CommandView,
)
    requires
        state.phase == Phase::Choice,
        at_command(config, state, cmd),
        reply matches ReplyView::Keys(keys) ==> keys.len() == 0 || resolved(config).chapters.len()
            == 0,
    ensures
        respond(config, state, reply) == (
            SessionView { phase: Phase::Running, ..state },
            seq![OutputView::Stdout("\n"@)],
        ),
{
}

/// Keys that lead to no chapter run the command that was typed.
pub proof fn law_keys_that_lead_nowhere_run_the_command(
    config: ConfigView,
    state: SessionView,
    reply: ReplyView,
    cmd: CommandView,
)
    requires
        state.phase == Phase::Choice,
        at_command(config, state, cmd),
        leads_to(config, state, reply) is None,
    ensures
        respond(config, state, reply).0 == (SessionView { phase: Phase::Running, ..state }),
        respond(config, state, reply).1 == (if asked_for(config, reply) == NavAction::Continue {
            seq![OutputView::Stdout("\n"@)]
        } else {
            Seq::<OutputView>::empty()
        }),
{
}

/// Keys that lead to a chapter lead to its first step. Nothing is run or printed on the way, and
/// no value changes.
pub proof fn law_keys_lead_to_the_start_of_a_chapter(
    config: ConfigView,
    state: SessionView,
    reply: ReplyView,
    cmd: CommandView,
    target: int,
)
    requires
        state.phase == Phase::Choice,
        at_command(config, state, cmd),
        leads_to(config, state, reply) == Some(target),
    ensures
        respond(config, state, reply) == (
            SessionView {
                idx: resolved(config).chapters[target].start,
                chapter: target,
                phase: Phase::Head,
                ..state
            },
            Seq::<OutputView>::empty(),
        ),
{
}

/// What is done for a command that is to be run: it is watched where it waits for a pattern,
/// talked to where there is something to say, and run for all to see otherwise.
pub proof fn law_how_commands_are_run(config: ConfigView, state: SessionView, cmd: CommandView)
    requires
        state.phase == Phase::Running,
        at_command(config, state, cmd),
        cmd.fake_output is None,
        cmd.execute,
    ensures
        cmd.wait_for matches Some(pattern) ==> (compiled(pattern) matches Ok(regex) ==> (wanted(
            config,
            state,
        ) matches ActionView::Watch(_, watch) && watch.regex == regex && watch.timeout
            == cmd.timeout && watch.output.len() == 0)),
        cmd.wait_for is None ==> (cmd.interact matches Some(lines) ==> (wanted(
            config,
            state,
        ) matches ActionView::Converse(_, script) && script == lines)),
        cmd.wait_for is None && cmd.interact is None ==> (wanted(
            config,
            state,
        ) matches ActionView::Run(_, mode) && mode == (if cmd.capture is Some {
            RunMode::VisibleCapture
        } else {
            RunMode::Visible
        })),
{
}

/// Made-up output is typed at its speed, or printed as it is where it has none. After it the real
/// command runs hidden, unless it is not to be executed.
pub proof fn law_made_up_output_is_shown(
    config: ConfigView,
    state: SessionView,
    reply: ReplyView,
    cmd: CommandView,
    fake: Seq<char>,
)
    requires
        state.phase == Phase::Running,
        at_command(config, state, cmd),
        cmd.fake_output == Some(fake),
    ensures
        cmd.output_speed matches Some(speed) ==> {
            &&& wanted(config, state) matches ActionView::Type(typing) && {
                &&& shows(typing.strokes, fake)
                &&& pauses(typing.strokes, fake, 0)
                &&& typing.delay == speed_delay(speed as nat)
                &&& typing.tail == Seq::<char>::empty()
                &&& typing.jitter == (if cmd.jitter is Some {
                    cmd.jitter->0
                } else {
                    config.jitter
                })
            }
            &&& respond(config, state, reply).1 == seq![OutputView::Stdout("\n"@)]
        },
        cmd.output_speed is None ==> wanted(config, state) == ActionView::Nothing && respond(
            config,
            state,
            reply,
        ).1 == seq![OutputView::Stdout(fake)],
        !cmd.execute ==> respond(config, state, reply).0 == (SessionView {
            phase: Phase::Settle,
            ..state
        }),
        cmd.execute ==> respond(config, state, reply).0 == (SessionView {
            phase: Phase::QuietRun,
            ..state
        }),
        cmd.execute ==> (wanted(
            config,
            respond(config, state, reply).0,
        ) matches ActionView::Run(_, mode) && mode == RunMode::Hidden),
{
    if cmd.output_speed is Some {
        lemma_speed_delay_fits(cmd.output_speed->0);
    }
}

/// A command that is neither executed nor made up is only typed.
pub proof fn law_typed_only(
    config: ConfigView,
    state: SessionView,
    reply: ReplyView,
    cmd: CommandView,
)
    requires
        state.phase == Phase::Running,
        at_command(config, state, cmd),
        cmd.fake_output is None,
        !cmd.execute,
    ensures
        wanted(config, state) == ActionView::Nothing,
        respond(config, state, reply) == (
            SessionView { phase: Phase::Settle, ..state },
            Seq::<OutputView>::empty(),
        ),
{
}

/// A hidden command runs with its output collected exactly if something is to be captured from
/// it.
pub proof fn law_how_hidden_commands_are_run(
    config: ConfigView,
    state: SessionView,
    cmd: CommandView,
)
    requires
        state.phase == Phase::HiddenRun,
        at_command(config, state, cmd),
    ensures
        wanted(config, state) matches ActionView::Run(_, mode) && mode == (
        if cmd.capture is Some {
            RunMode::HiddenCapture
        } else {
            RunMode::Hidden
        }),
{
}

/// A command that has finished leaves its step only after the time to advance by itself, and
/// after the hold, if it has them.
pub proof fn law_finished_commands_take_their_time(
    config: ConfigView,
    state: SessionView,
    first: ReplyView,
    second: ReplyView,
    cmd: CommandView,
)
    requires
        state.phase == Phase::Settle,
        at_command(config, state, cmd),
    ensures
        ({
            let next = SessionView { idx: state.idx + 1, phase: Phase::Head, ..state };
            let held = respond(config, state, first).0;
            &&& cmd.wait matches Some(ms) ==> wanted(config, state) == ActionView::Sleep(ms)
            &&& cmd.wait is None ==> (config.auto_advance matches Some(ms) ==> wanted(
                config,
                state,
            ) == ActionView::Sleep(ms))
            &&& cmd.wait is None && config.auto_advance is None ==> wanted(config, state)
                == ActionView::Nothing
            &&& !cmd.wait_after ==> respond(config, state, first) == (
                next,
                Seq::<OutputView>::empty(),
            )
            &&& cmd.wait_after ==> {
                &&& respond(config, state, first).1 == seq![
                    OutputView::Stdout(expanded(config.prompt)),
                ]
                &&& wanted(config, held) == ActionView::AwaitKey
                &&& respond(config, held, second) == (
                    next,
                    seq![OutputView::Stdout("\r\x1B[2K"@)],
                )
            }
        }),
{
}

/// A command that is shown is on its way to being run for as long as it has not been.
pub open spec fn before_running(phase: Phase) -> bool {
    phase == Phase::Begin || phase == Phase::BeforeHold || phase == Phase::CommandTyping || phase
        == Phase::Choice
}

/// From the first look at a command that is shown, every reply keeps the demo at it until it is
/// run, unless the keys lead to a chapter.
pub proof fn law_shown_commands_are_run(
    config: ConfigView,
    state: SessionView,
    reply: ReplyView,
    cmd: CommandView,
)
    requires
        before_running(state.phase),
        at_command(config, state, cmd),
        !cmd.hidden,
        conditions_hold(cmd.if_condition, cmd.unless, state.vars),
        state.phase == Phase::Choice ==> leads_to(config, state, reply) is None,
    ensures
        ({
            let after = respond(config, state, reply).0;
            &&& after.idx == state.idx
            &&& after.env == state.env
            &&& after.vars == state.vars
            &&& after.chapter == state.chapter
            &&& after.phase == Phase::Running || (before_running(after.phase) && after.phase
                != Phase::Begin)
        }),
{
}

/// No command that is shown is passed over: when a demo has left its step, and the keys did not
/// lead to a chapter meanwhile, it has been at the point of running it, with the environment and
/// the variables it had at the first look.
pub proof fn law_no_shown_command_is_passed_over(
    config: ConfigView,
    state: SessionView,
    replies: Seq<ReplyView>,
    n: int,
    cmd: CommandView,
)
    requires
        state.phase == Phase::Begin,
        at_command(config, state, cmd),
        !cmd.hidden,
        conditions_hold(cmd.if_condition, cmd.unless, state.vars),
        0 <= n <= replies.len(),
        forall|j: int|
            #![trigger replies[j]]
            0 <= j < n && played(config, state, replies, j).phase == Phase::Choice ==> leads_to(
                config,
                played(config, state, replies, j),
                replies[j],
            ) is None,
        !before_running(played(config, state, replies, n).phase) || played(
            config,
            state,
            replies,
            n,
        ).idx != state.idx,
    ensures
        exists|j: int|
            0 <= j <= n && is_run_at(#[trigger] played(config, state, replies, j), state),
    decreases n,
{
    if n > 0 {
        let before = played(config, state, replies, n - 1);
        lemma_still_at_it(config, state, replies, n - 1, cmd);
        if !(exists|j: int|
            0 <= j <= n - 1 && is_run_at(#[trigger] played(config, state, replies, j), state)) {
            assert(replies[n - 1] == replies[n - 1]);
            law_shown_commands_are_run(config, before, replies[n - 1], cmd);
            assert(is_run_at(played(config, state, replies, n), state));
        }
    }
}

/// The demo is at the point of running the command of `start`, with the values it had there.
pub open spec fn is_run_at(state: SessionView, start: SessionView) -> bool {
    &&& state.phase == Phase::Running
    &&& state.idx == start.idx
    &&& state.env == start.env
    &&& state.vars == start.vars
}

proof fn lemma_still_at_it(
    config: ConfigView,
    state: SessionView,
    replies: Seq<ReplyView>,
    n: int,
    cmd: CommandView,
)
    requires
        state.phase == Phase::Begin,
        at_command(config, state, cmd),
        !cmd.hidden,
        conditions_hold(cmd.if_condition, cmd.unless, state.vars),
        0 <= n <= replies.len(),
        forall|j: int|
            #![trigger replies[j]]
            0 <= j < n && played(config, state, replies, j).phase == Phase::Choice ==> leads_to(
                config,
                played(config, state, replies, j),
                replies[j],
            ) is None,
    ensures
        (exists|j: int|
            0 <= j <= n && is_run_at(#[trigger] played(config, state, replies, j), state)) || {
            let now = played(config, state, replies, n);
            &&& before_running(now.phase)
            &&& now.idx == state.idx
            &&& now.env == state.env
            &&& now.vars == state.vars
        },
    decreases n,
{
    if n > 0 {
        lemma_still_at_it(config, state, replies, n - 1, cmd);
        let before = played(config, state, replies, n - 1);
        let now = played(config, state, replies, n);
        if !(exists|j: int|
            0 <= j <= n - 1 && is_run_at(#[trigger] played(config, state, replies, j), state)) {
            assert(replies[n - 1] == replies[n - 1]);
            law_shown_commands_are_run(config, before, replies[n - 1], cmd);
            if now.phase == Phase::Running {
                assert(is_run_at(now, state));
            }
        } else {
            let j = choose|j: int|
                0 <= j <= n - 1 && is_run_at(#[trigger] played(config, state, replies, j), state);
            assert(is_run_at(played(config, state, replies, j), state));
        }
    }
}


// ---------------------------------------------------------------------------
// Environment
// ---------------------------------------------------------------------------

/// The command of a step is run, and this is how it ended.
pub open spec fn ran_and_reported(
    config: ConfigView,
    state: SessionView,
    reply: ReplyView,
    snapshot: Option<Seq<u8>>,
) -> bool {
    match wanted(config, state) {
        ActionView::Run(_, _) => reply matches ReplyView::Outcome(OutcomeView::Ran(ran))
            && ran.snapshot == snapshot,
        ActionView::Watch(_, _) => reply matches ReplyView::Attended(
            AttendedView::Ended(_, reported),
        ) && reported == snapshot,
        ActionView::Converse(_, _) => reply matches ReplyView::Attended(
            AttendedView::Ended(_, reported),
        ) && reported == snapshot,
        _ => false,
    }
}

/// A command takes a captured value under this name.
pub open spec fn captures_as(
    config: ConfigView,
    state: SessionView,
    cmd: CommandView,
    name: Seq<char>,
) -> bool {
    &&& wanted(config, state) is Run
    &&& state.phase != Phase::QuietRun
    &&& cmd.capture matches Some(capture) && capture.name == name
}

/// A step's own values stay local to it: one that the command reports unchanged is afterwards as
/// it was before the step, bound to the same value or not bound at all. That holds of commands
/// that are run for all to see, hidden, behind made-up output, watched or talked to.
pub proof fn law_step_values_stay_local(
    config: ConfigView,
    state: SessionView,
    reply: ReplyView,
    cmd: CommandView,
    bytes: Seq<u8>,
    name: Seq<char>,
)
    requires
        fits(config, state),
        at_command(config, state, cmd),
        state.phase == Phase::Running || state.phase == Phase::QuietRun || state.phase
            == Phase::HiddenRun,
        ran_and_reported(config, state, reply, Some(bytes)),
        !captures_as(config, state, cmd, name),
        cmd.env.contains_key(name),
        bindings(reported_env(bytes)).contains_key(name),
        bindings(reported_env(bytes))[name] == cmd.env[name],
    ensures
        respond(config, state, reply).0.env.contains_key(name) == state.env.contains_key(name),
        state.env.contains_key(name) ==> respond(config, state, reply).0.env[name]
            == state.env[name],
{
}

/// Everything else is afterwards as the command reports it: what it sets or changes is bound to
/// the new value, what it unsets is gone.
pub proof fn law_reported_values_persist(
    config: ConfigView,
    state: SessionView,
    reply: ReplyView,
    cmd: CommandView,
    bytes: Seq<u8>,
    name: Seq<char>,
)
    requires
        fits(config, state),
        at_command(config, state, cmd),
        state.phase == Phase::Running || state.phase == Phase::QuietRun || state.phase
            == Phase::HiddenRun,
        ran_and_reported(config, state, reply, Some(bytes)),
        !captures_as(config, state, cmd, name),
        !(cmd.env.contains_key(name) && bindings(reported_env(bytes)).contains_key(name)
            && bindings(reported_env(bytes))[name] == cmd.env[name]),
    ensures
        respond(config, state, reply).0.env.contains_key(name) == bindings(
            reported_env(bytes),
        ).contains_key(name),
        bindings(reported_env(bytes)).contains_key(name) ==> respond(
            config,
            state,
            reply,
        ).0.env[name] == bindings(reported_env(bytes))[name],
{
}

/// A command that reports nothing, or could not be run, leaves every value as it was, but for
/// one that is captured.
pub proof fn law_unreported_values_are_kept(
    config: ConfigView,
    state: SessionView,
    reply: ReplyView,
    cmd: CommandView,
    name: Seq<char>,
)
    requires
        fits(config, state),
        at_command(config, state, cmd),
        ran_and_reported(config, state, reply, None) || reply matches ReplyView::Outcome(
            OutcomeView::Failed(_),
        ) || reply matches ReplyView::Attended(AttendedView::Failed(_)),
        state.phase == Phase::Running || state.phase == Phase::QuietRun || state.phase
            == Phase::HiddenRun,
        !captures_as(config, state, cmd, name),
    ensures
        respond(config, state, reply).0.env.contains_key(name) == state.env.contains_key(name),
        state.env.contains_key(name) ==> respond(config, state, reply).0.env[name]
            == state.env[name],
{
}

/// A command sees the demo's environment, with the values of its own step laid over it.
pub proof fn law_commands_see_their_environment(
    config: ConfigView,
    state: SessionView,
    cmd: CommandView,
    name: Seq<char>,
)
    requires
        at_command(config, state, cmd),
        state.phase == Phase::Running || state.phase == Phase::QuietRun || state.phase
            == Phase::HiddenRun,
    ensures
        ({
            let sees = |env: Map<Seq<char>, Seq<char>>|
                {
                    &&& cmd.env.contains_key(name) ==> env.contains_key(name) && env[name]
                        == cmd.env[name]
                    &&& !cmd.env.contains_key(name) ==> env.contains_key(name)
                        == state.env.contains_key(name)
                    &&& !cmd.env.contains_key(name) && state.env.contains_key(name) ==> env[name]
                        == state.env[name]
                };
            match wanted(config, state) {
                ActionView::Run(job, _) => sees(job.env),
                ActionView::Watch(job, _) => sees(job.env),
                ActionView::Converse(job, _) => sees(job.env),
                _ => true,
            }
        }),
{
}

// ---------------------------------------------------------------------------
// Captures
// ---------------------------------------------------------------------------

/// What a JSON path finds in a command that is run for all to see is what it finds in the standard
/// output alone, whatever stands on the error output. The value goes into the variable and into
/// the environment; where nothing is found, a complaint is printed last and no variable changes.
pub proof fn law_json_is_found_in_standard_output(
    config: ConfigView,
    state: SessionView,
    cmd: CommandView,
    ran: RanView,
    path: Seq<char>,
)
    requires
        fits(config, state),
        distinct(state.vars),
        at_command(config, state, cmd),
        state.phase == Phase::Running,
        wanted(config, state) is Run,
        cmd.capture is Some,
        cmd.capture->0.json_path == Some(path),
    ensures
        ({
            let reply = ReplyView::Outcome(OutcomeView::Ran(ran));
            let after = respond(config, state, reply).0;
            let name = cmd.capture->0.name;
            match extracted(text_of(ran.stdout), path) {
                Some(value) => {
                    &&& bindings(after.vars) == bindings(state.vars).insert(name, value)
                    &&& after.env.contains_key(name)
                    &&& after.env[name] == value
                },
                None => {
                    &&& after.vars == state.vars
                    &&& respond(config, state, reply).1.last() == OutputView::Stderr(
                        "[demonator] json_path '"@ + path + "' did not match\n"@,
                    )
                },
            }
        }),
{
    let name = cmd.capture->0.name;
    match extracted(text_of(ran.stdout), path) {
        Some(value) => {
            law_put(state.vars, name, value);
        },
        None => {},
    }
}

/// What a pattern finds in a command that is run for all to see is group one of its match in the
/// standard output followed by the error output.
pub proof fn law_patterns_are_found_in_both_outputs(
    config: ConfigView,
    state: SessionView,
    cmd: CommandView,
    ran: RanView,
    pattern: Seq<char>,
)
    requires
        fits(config, state),
        distinct(state.vars),
        at_command(config, state, cmd),
        state.phase == Phase::Running,
        wanted(config, state) is Run,
        cmd.capture is Some,
        cmd.capture->0.json_path is None,
        cmd.capture->0.pattern == Some(pattern),
    ensures
        ({
            let reply = ReplyView::Outcome(OutcomeView::Ran(ran));
            let after = respond(config, state, reply).0;
            let name = cmd.capture->0.name;
            let both = text_of(ran.stdout) + text_of(ran.stderr);
            match compiled(pattern) {
                Ok(regex) => match group_text(regex, both, 1) {
                    Some(value) => {
                        &&& bindings(after.vars) == bindings(state.vars).insert(name, value)
                        &&& after.env.contains_key(name)
                        &&& after.env[name] == value
                    },
                    None => after.vars == state.vars,
                },
                Err(_) => {
                    &&& after.vars == state.vars
                    &&& respond(config, state, reply).1.last() == OutputView::Stderr(
                        "[demonator] invalid capture pattern: "@ + pattern + "\n"@,
                    )
                },
            }
        }),
{
    let name = cmd.capture->0.name;
    let both = text_of(ran.stdout) + text_of(ran.stderr);
    match compiled(pattern) {
        Ok(regex) => match group_text(regex, both, 1) {
            Some(value) => {
                law_put(state.vars, name, value);
            },
            None => {},
        },
        Err(_) => {},
    }
}

/// What is captured from a hidden command is found in its standard output: by the JSON path where
/// there is one, else group one of the pattern's match.
pub proof fn law_hidden_captures_are_found_in_standard_output(
    config: ConfigView,
    state: SessionView,
    cmd: CommandView,
    ran: RanView,
)
    requires
        fits(config, state),
        distinct(state.vars),
        at_command(config, state, cmd),
        state.phase == Phase::HiddenRun,
        cmd.capture is Some,
    ensures
        ({
            let after = respond(
                config,
                state,
                ReplyView::Outcome(OutcomeView::Ran(ran)),
            ).0;
            let capture = cmd.capture->0;
            let stdout = text_of(ran.stdout);
            let found = if capture.json_path is Some {
                extracted(stdout, capture.json_path->0)
            } else if capture.pattern is Some && compiled(capture.pattern->0) is Ok {
                group_text(compiled(capture.pattern->0)->Ok_0, stdout, 1)
            } else {
                None
            };
            match found {
                Some(value) => {
                    &&& bindings(after.vars) == bindings(state.vars).insert(capture.name, value)
                    &&& after.env.contains_key(capture.name)
                    &&& after.env[capture.name] == value
                },
                None => after.vars == state.vars,
            }
        }),
{
    let capture = cmd.capture->0;
    let stdout = text_of(ran.stdout);
    if capture.json_path is Some {
        let found = extracted(stdout, capture.json_path->0);
        if found is Some {
            law_put(state.vars, capture.name, found->0);
        }
    } else if capture.pattern is Some && compiled(capture.pattern->0) is Ok {
        let found = group_text(compiled(capture.pattern->0)->Ok_0, stdout, 1);
        if found is Some {
            law_put(state.vars, capture.name, found->0);
        }
    }
}

/// Without a capture, or with one that asks for nothing, a command changes no variable; neither
/// does one that is watched, talked to, run behind made-up output or could not be run.
pub proof fn law_other_commands_capture_nothing(
    config: ConfigView,
    state: SessionView,
    reply: ReplyView,
    cmd: CommandView,
)
    requires
        fits(config, state),
        at_command(config, state, cmd),
        state.phase == Phase::Running || state.phase == Phase::QuietRun || state.phase
            == Phase::HiddenRun,
        cmd.capture is None || (cmd.capture->0.json_path is None && cmd.capture->0.pattern is None)
            || state.phase == Phase::QuietRun || cmd.fake_output is Some && !cmd.hidden
            || !cmd.hidden && (cmd.wait_for is Some || cmd.interact is Some) || reply
            matches ReplyView::Outcome(OutcomeView::Failed(_)),
    ensures
        respond(config, state, reply).0.vars == state.vars,
{
}

/// What a command prints is shown once. Its outputs are printed when they were collected, both as
/// they came; then comes its exit status, if it did not succeed and that is to be shown.
pub proof fn law_what_commands_print(
    config: ConfigView,
    state: SessionView,
    cmd: CommandView,
    ran: RanView,
)
    requires
        fits(config, state),
        at_command(config, state, cmd),
        state.phase == Phase::Running,
        wanted(config, state) is Run,
    ensures
        ({
            let out = respond(
                config,
                state,
                ReplyView::Outcome(OutcomeView::Ran(ran)),
            ).1;
            let code: int = if ran.code is Some {
                ran.code->0 as int
            } else {
                1
            };
            let note = OutputView::Stderr(
                "[demonator] command exited with status "@ + signed_decimal(code)
                    + "\n"@,
            );
            let noted = config.show_exit_status && ran.code != Some(0i32);
            &&& cmd.capture is None ==> out == (if noted {
                seq![note]
            } else {
                Seq::<OutputView>::empty()
            })
            &&& cmd.capture is Some ==> {
                &&& out.len() >= 2
                &&& out[0] == OutputView::Stdout(text_of(ran.stdout))
                &&& out[1] == OutputView::Stderr(text_of(ran.stderr))
                &&& noted ==> out.len() >= 3 && out[2] == note
                &&& out.len() <= (if noted {
                    4int
                } else {
                    3int
                })
            }
        }),
{
}

/// A command that could not be run is noted, and the demo goes on.
pub proof fn law_commands_that_cannot_run_are_noted(
    config: ConfigView,
    state: SessionView,
    cmd: CommandView,
    reason: Seq<char>,
)
    requires
        fits(config, state),
        at_command(config, state, cmd),
        state.phase == Phase::Running,
        wanted(config, state) is Run || wanted(config, state) is Watch || wanted(
            config,
            state,
        ) is Converse,
    ensures
        ({
            let reply = if wanted(config, state) is Run {
                ReplyView::Outcome(OutcomeView::Failed(reason))
            } else {
                ReplyView::Attended(AttendedView::Failed(reason))
            };
            respond(config, state, reply) == (
                SessionView { phase: Phase::Settle, ..state },
                seq![
                    OutputView::Stderr(
                        "[demonator] failed to run command: "@ + reason + "\n"@,
                    ),
                ],
            )
        }),
{
}

// ---------------------------------------------------------------------------
// Setup, teardown and chapters
// ---------------------------------------------------------------------------

/// A demo starts with its setup, at its first command, with no variable and no prompt.
pub proof fn law_demos_start_with_their_setup(env: Map<Seq<char>, Seq<char>>)
    ensures
        opening(env) == (SessionView {
            env,
            vars: Seq::empty(),
            idx: 0,
            chapter: 0,
            prompt_shown: false,
            phase: Phase::Setup,
        }),
{
}

/// Setup and teardown commands run one after the other, hidden, as they are written and in the
/// demo's environment; the next one, if any, sees what this one reports, and one that fails is
/// noted.
pub proof fn law_housekeeping_runs_in_order(
    config: ConfigView,
    state: SessionView,
    reply: ReplyView,
    list: Seq<Seq<char>>,
)
    requires
        state.phase == Phase::Setup && config.setup == Some(list) || state.phase == Phase::Teardown
            && config.teardown == Some(list),
        0 <= state.idx < list.len(),
    ensures
        wanted(config, state) matches ActionView::Run(job, mode) && {
            &&& mode == RunMode::Hidden
            &&& job.env == state.env
            &&& job.script == list[state.idx]
                + "\n__demonator_status=$?\nenv -0 > \"$DEMONATOR_ENV_FILE\"\nexit \"$__demonator_status\""@
        },
        ({
            let after = respond(config, state, reply).0;
            let out = respond(config, state, reply).1;
            &&& after.idx == state.idx + 1
            &&& after.phase == state.phase
            &&& after.vars == state.vars
            &&& after.chapter == state.chapter
            &&& after.prompt_shown == state.prompt_shown
            &&& reply matches ReplyView::Outcome(OutcomeView::Ran(ran)) ==> {
                &&& ran.snapshot matches Some(bytes) ==> after.env == bindings(reported_env(bytes))
                &&& ran.snapshot is None ==> after.env == state.env
                &&& ran.code == Some(0i32) ==> out == Seq::<OutputView>::empty()
                &&& ran.code != Some(0i32) ==> out == seq![
                    OutputView::Stderr(
                        "[demonator] setup/teardown command failed ("@
                            + signed_decimal(
                            if ran.code is Some {
                                ran.code->0 as int
                            } else {
                                -1
                            },
                        ) + "): "@ + list[state.idx] + "\n"@,
                    ),
                ]
            }
            &&& !(reply matches ReplyView::Outcome(OutcomeView::Ran(_))) ==> after.env == state.env
                && out == Seq::<OutputView>::empty()
        }),
{
    match reply {
        ReplyView::Outcome(OutcomeView::Ran(ran)) => {
            if ran.snapshot is Some {
                let left = bindings(reported_env(ran.snapshot->0));
                assert(settled(state.env, Map::empty(), left) =~= left);
            }
        },
        _ => {},
    }
}

/// Behind the last setup command the screen is cleared if that is asked for, and the first step
/// comes.
pub proof fn law_steps_come_after_setup(config: ConfigView, state: SessionView, reply: ReplyView)
    requires
        state.phase == Phase::Setup,
        config.setup matches Some(list) ==> state.idx >= list.len(),
        state.idx >= 0,
    ensures
        wanted(config, state) == ActionView::Nothing,
        respond(config, state, reply) == (
            SessionView { idx: 0, phase: Phase::Head, ..state },
            if config.clear {
                seq![OutputView::Stdout("\x1B[2J\x1B[H"@)]
            } else {
                Seq::<OutputView>::empty()
            },
        ),
{
}

/// Behind the last step comes the first teardown command, and behind the last of those the end.
pub proof fn law_teardown_comes_after_steps(
    config: ConfigView,
    state: SessionView,
    reply: ReplyView,
)
    requires
        state.phase == Phase::Head && state.idx >= resolved(config).steps.len() || state.phase
            == Phase::Teardown && state.idx >= 0 && (config.teardown matches Some(list)
            ==> state.idx >= list.len()),
    ensures
        wanted(config, state) == ActionView::Nothing,
        respond(config, state, reply).1 == Seq::<OutputView>::empty(),
        state.phase == Phase::Head ==> respond(config, state, reply).0 == (SessionView {
            idx: 0,
            phase: Phase::Teardown,
            ..state
        }),
        state.phase == Phase::Teardown ==> wanted(config, respond(config, state, reply).0)
            == ActionView::Finish,
{
}

/// Every chapter has a step of its own.
pub open spec fn chapters_have_steps(config: ConfigView) -> bool {
    forall|i: int| 0 <= i < config.chapters.len() ==> (#[trigger] config.chapters[i]).steps.len() > 0
}

/// The chapter that comes next is the first one that is not announced yet: one that starts behind
/// the current step, or at it where that has not begun.
pub open spec fn in_chapter(config: ConfigView, state: SessionView) -> bool {
    let chapters = resolved(config).chapters;
    let among_steps = !(state.phase == Phase::Setup || state.phase == Phase::Teardown
        || state.phase == Phase::Finished || state.phase == Phase::Aborted);
    &&& state.phase == Phase::Setup ==> state.chapter == 0
    &&& among_steps ==> forall|k: int|
        0 <= k < chapters.len() ==> (k < state.chapter <==> ((#[trigger] chapters[k]).start
            < state.idx || chapters[k].start == state.idx && state.phase != Phase::Head))
}

proof fn lemma_starts_grow(config: ConfigView, a: int, b: int)
    requires
        chapters_have_steps(config),
        0 <= a < b < resolved(config).chapters.len(),
    ensures
        0 <= resolved(config).chapters[a].start < resolved(config).chapters[b].start,
{
    let chapters = config.chapters;
    assert(chapters[a].steps.len() > 0);
    law_chapters_in_order(chapters, a + 1, b);
    law_chapters_in_order(chapters, a, a + 1);
    assert(chapters.take(a + 1).drop_last() =~= chapters.take(a));
    assert(chapters.take(a + 1).last() == chapters[a]);
}

/// The chapter that comes next is kept up, also by going to other chapters.
pub proof fn law_chapters_are_kept_up(config: ConfigView, state: SessionView, reply: ReplyView)
    requires
        chapters_have_steps(config),
        fits(config, state),
        in_chapter(config, state),
    ensures
        in_chapter(config, respond(config, state, reply).0),
{
    let chapters = resolved(config).chapters;
    let after = respond(config, state, reply).0;
    assert forall|a: int, b: int| 0 <= a < b < chapters.len() implies 0 <= (
    #[trigger] chapters[a]).start < (#[trigger] chapters[b]).start by {
        lemma_starts_grow(config, a, b);
    }
    if chapters.len() > 0 {
        law_chapters_start_at_steps(config, 0);
    }
    if state.phase == Phase::Choice {
        law_destination_exists(
            chapters,
            state.idx,
            nav_of(chapters.len() > 0, keys_in(reply)),
        );
    }
    if state.phase == Phase::Setup && after.phase == Phase::Head {
        assert forall|k: int| 0 <= k < chapters.len() implies (#[trigger] chapters[k]).start
            >= 0 by {
            law_chapters_start_at_steps(config, k);
        }
    }
}

/// A chapter is announced exactly when its first step comes, and nothing is announced at other
/// steps.
pub proof fn law_chapters_are_announced_where_they_start(
    config: ConfigView,
    state: SessionView,
    reply: ReplyView,
)
    requires
        chapters_have_steps(config),
        fits(config, state),
        in_chapter(config, state),
        state.phase == Phase::Head,
        state.idx < resolved(config).steps.len(),
    ensures
        respond(config, state, reply).0.idx == state.idx,
        respond(config, state, reply).0.phase == Phase::Begin,
        respond(config, state, reply).0.env == state.env,
        respond(config, state, reply).0.vars == state.vars,
        respond(config, state, reply).0.prompt_shown == state.prompt_shown,
        forall|k: int|
            0 <= k < resolved(config).chapters.len() && (#[trigger] resolved(
                config,
            ).chapters[k]).start == state.idx ==> respond(config, state, reply).1 == seq![
                OutputView::Stdout(header(resolved(config).chapters[k].name)),
            ],
        (forall|k: int|
            0 <= k < resolved(config).chapters.len() ==> (#[trigger] resolved(
                config,
            ).chapters[k]).start != state.idx) ==> respond(config, state, reply).1 == Seq::<
            OutputView,
        >::empty(),
{
    let chapters = resolved(config).chapters;
    assert forall|k: int| 0 <= k < chapters.len() && (#[trigger] chapters[k]).start
        == state.idx implies k == state.chapter by {
        if state.chapter < k {
            lemma_starts_grow(config, state.chapter, k);
            assert(chapters[state.chapter].start < state.idx);
        }
    }
}

/// At any time in a demo, the chapter that comes next is known.
pub proof fn law_chapters_are_always_kept_up(
    config: ConfigView,
    env: Map<Seq<char>, Seq<char>>,
    replies: Seq<ReplyView>,
    n: int,
)
    requires
        chapters_have_steps(config),
        0 <= n <= replies.len(),
    ensures
        fits(config, played(config, opening(env), replies, n)),
        in_chapter(config, played(config, opening(env), replies, n)),
    decreases n,
{
    if n > 0 {
        law_chapters_are_always_kept_up(config, env, replies, n - 1);
        let before = played(config, opening(env), replies, n - 1);
        law_state_goes_on_to_fit(config, before, replies[n - 1]);
        law_chapters_are_kept_up(config, before, replies[n - 1]);
    }
}

// ---------------------------------------------------------------------------
// What is left alone
// ---------------------------------------------------------------------------

/// A hidden command leaves nothing behind but values: no prompt is used up, nothing is printed,
/// and the next step comes.
pub proof fn law_hidden_commands_leave_only_values(
    config: ConfigView,
    state: SessionView,
    first: ReplyView,
    second: ReplyView,
    cmd: CommandView,
)
    requires
        state.phase == Phase::Begin,
        at_command(config, state, cmd),
        cmd.hidden,
        conditions_hold(cmd.if_condition, cmd.unless, state.vars),
    ensures
        respond(config, state, first) == (
            SessionView { phase: Phase::HiddenRun, ..state },
            Seq::<OutputView>::empty(),
        ),
        ({
            let running = respond(config, state, first).0;
            let after = respond(config, running, second).0;
            &&& respond(config, running, second).1 == Seq::<OutputView>::empty()
            &&& after == (SessionView {
                idx: state.idx + 1,
                phase: Phase::Head,
                env: after.env,
                vars: after.vars,
                ..state
            })
        }),
{
}

/// A command whose conditions do not hold is passed over without a trace.
pub proof fn law_unmet_conditions_pass_over(
    config: ConfigView,
    state: SessionView,
    reply: ReplyView,
    cmd: CommandView,
)
    requires
        state.phase == Phase::Begin,
        at_command(config, state, cmd),
        !conditions_hold(cmd.if_condition, cmd.unless, state.vars),
    ensures
        respond(config, state, reply) == (
            SessionView { idx: state.idx + 1, phase: Phase::Head, ..state },
            Seq::<OutputView>::empty(),
        ),
{
}

/// A command that has run settles. Nothing but values changes, and nothing is printed at the end
/// of one that was watched, talked to or run behind made-up output.
pub proof fn law_commands_that_ran_settle(
    config: ConfigView,
    state: SessionView,
    reply: ReplyView,
    cmd: CommandView,
)
    requires
        fits(config, state),
        at_command(config, state, cmd),
        state.phase == Phase::QuietRun || state.phase == Phase::Running && cmd.fake_output is None,
    ensures
        ({
            let after = respond(config, state, reply).0;
            &&& after == (SessionView {
                phase: Phase::Settle,
                env: after.env,
                vars: after.vars,
                ..state
            })
            &&& state.phase == Phase::QuietRun ==> respond(config, state, reply).1 == Seq::<
                OutputView,
            >::empty()
            &&& (wanted(config, state) is Watch || wanted(config, state) is Converse) && (reply
                matches ReplyView::Attended(AttendedView::Ended(_, _))) ==> respond(
                config,
                state,
                reply,
            ).1 == Seq::<OutputView>::empty()
        }),
{
}

/// The head of a step announces the chapter that comes next, if it starts there, and that alone.
pub proof fn law_heads_announce(config: ConfigView, state: SessionView, reply: ReplyView)
    requires
        state.phase == Phase::Head,
        0 <= state.idx < resolved(config).steps.len(),
        0 <= state.chapter <= resolved(config).chapters.len(),
    ensures
        ({
            let chapters = resolved(config).chapters;
            let due = state.chapter < chapters.len() && chapters[state.chapter].start == state.idx;
            &&& wanted(config, state) == ActionView::Nothing
            &&& due ==> respond(config, state, reply) == (
                SessionView { chapter: state.chapter + 1, phase: Phase::Begin, ..state },
                seq![OutputView::Stdout(header(chapters[state.chapter].name))],
            )
            &&& !due ==> respond(config, state, reply) == (
                SessionView { phase: Phase::Begin, ..state },
                Seq::<OutputView>::empty(),
            )
        }),
{
}

/// A highlighted command appears in its colours: each key stroke is its character, behind the
/// escape sequence of its colour where that is another than the one before.
pub proof fn law_highlighted_commands_appear_in_their_colours(
    config: ConfigView,
    state: SessionView,
    cmd: CommandView,
    i: int,
)
    requires
        state.phase == Phase::CommandTyping,
        at_command(config, state, cmd),
        config.highlight,
        0 <= i < substituted(cmd.text, state.vars).len(),
    ensures
        wanted(config, state) matches ActionView::Type(typing) && {
            let text = substituted(cmd.text, state.vars);
            let colors = painted(text, alnum_marks(text), 0, true);
            typing.strokes[i].text == (if i > 0 && color_code(colors[i]) == color_code(
                colors[i - 1],
            ) {
                seq![text[i]]
            } else {
                color_code(colors[i]) + seq![text[i]]
            })
        },
{
    let text = substituted(cmd.text, state.vars);
    let tokens = coloured(text);
    let colors = painted(text, alnum_marks(text), 0, true);
    lemma_codes_are_not_empty(colors[i]);
    law_colours_are_switched_where_they_change(
        tokens,
        or_global(cmd.pause, config.pause),
        i,
    );
}

proof fn lemma_codes_are_not_empty(color: Color)
    ensures
        color_code(color).len() > 0,
{
    reveal_strlit("\x1B[0m");
    reveal_strlit("\x1B[1;37m");
    reveal_strlit("\x1B[33m");
    reveal_strlit("\x1B[32m");
    reveal_strlit("\x1B[36m");
    reveal_strlit("\x1B[35m");
}

}
