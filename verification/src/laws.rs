//! What holds of every demo, however it is played.

use crate::color::{expanded, style_code};
use crate::conditions::{conditions_hold, is_set};
use crate::config::{CommandView, CommentView, ConfigView, StepView};
use crate::demo::resolved;
use crate::dry_run::header;
use crate::nav::{destination, law_destination_exists, nav_of};
use crate::pattern::compiled;
use crate::play::{
    command_typing, commands, comment_typing, fits, is_yes, keys_in, law_chapters_start_at_steps,
    law_opening_fits, law_state_goes_on_to_fit, line_in, next_step, opening, outcome_in, printed,
    respond, wanted, ActionView, Phase, ReplyView, RunMode, SessionView,
};
use crate::run::{hidden_value, reported, OutcomeView, OutputView};
use crate::text::{blank, trim_end, trim_start, trimmed, white};
use crate::vars::{bindings, distinct, law_put, law_without};
use crate::watch::bad_pattern_note;
use regex::Regex;
use vstd::prelude::*;

verus! {

broadcast use vstd::seq::group_seq_axioms;

/// The demo has come to its end.
pub open spec fn is_over(state: SessionView) -> bool {
    state.phase == Phase::Finished || state.phase == Phase::Aborted
}

/// The current step, where it is a command.
pub open spec fn at_command(config: ConfigView, state: SessionView, cmd: CommandView) -> bool {
    &&& 0 <= state.idx < resolved(config).steps.len()
    &&& resolved(config).steps[state.idx] == StepView::Command(cmd)
}

/// A demo that is over stays so: nothing is printed or done any more.
pub proof fn law_end_is_final(config: ConfigView, state: SessionView, reply: ReplyView)
    requires
        is_over(state),
    ensures
        respond(config, state, reply).0 == state,
        respond(config, state, reply).1 == Seq::<OutputView>::empty(),
        wanted(config, state) == (if state.phase == Phase::Finished {
            ActionView::Finish
        } else {
            ActionView::Exit(1)
        }),
{
}

// ---------------------------------------------------------------------------
// Prompts
// ---------------------------------------------------------------------------

/// A pause, timed or not, leaves a prompt on the line for the next step.
pub proof fn law_pauses_leave_a_prompt(config: ConfigView, state: SessionView, reply: ReplyView)
    requires
        fits(config, state),
        state.phase == Phase::Begin,
        resolved(config).steps[state.idx] is TimedPause || resolved(config).steps[state.idx]
            == StepView::Directive("pause"@),
    ensures
        ({
            let held = respond(config, state, reply).0;
            let gone_on = respond(config, held, reply).0;
            &&& gone_on.prompt_shown
            &&& gone_on.idx == state.idx + 1
            &&& gone_on.phase == Phase::Head
            &&& respond(config, held, reply).1 == Seq::<OutputView>::empty()
        }),
{
}

/// Where a prompt stands on the line already, a timed pause, a comment or a command types into it
/// and prints no second one.
pub proof fn law_prompt_is_reused(config: ConfigView, state: SessionView, reply: ReplyView)
    requires
        fits(config, state),
        state.phase == Phase::Begin,
        state.prompt_shown,
    ensures
        match resolved(config).steps[state.idx] {
            StepView::TimedPause(_) => respond(config, state, reply).1
                == Seq::<OutputView>::empty(),
            StepView::Command(_) => respond(config, state, reply).1 == Seq::<OutputView>::empty(),
            StepView::Comment(comment) => respond(config, state, reply).1 == printed(
                style_code(comment.style),
            ),
            _ => true,
        },
{
    assert(Seq::<OutputView>::empty() + respond(config, state, reply).1 =~= respond(
        config,
        state,
        reply,
    ).1);
    match resolved(config).steps[state.idx] {
        StepView::Comment(comment) => {
            assert(Seq::<OutputView>::empty() + printed(style_code(comment.style)) =~= printed(
                style_code(comment.style),
            ));
        },
        _ => {},
    }
}

/// A command that is shown starts with a prompt, whether it was there or is printed now, and uses
/// it up.
pub proof fn law_commands_start_at_a_prompt(
    config: ConfigView,
    state: SessionView,
    reply: ReplyView,
    cmd: CommandView,
)
    requires
        state.phase == Phase::Begin,
        at_command(config, state, cmd),
        !cmd.hidden,
        conditions_hold(cmd.if_condition, cmd.unless, state.vars),
    ensures
        state.prompt_shown || respond(config, state, reply).1 == printed(expanded(config.prompt)),
        !respond(config, state, reply).0.prompt_shown,
{
}

// ---------------------------------------------------------------------------
// Comments
// ---------------------------------------------------------------------------

/// Comments are not run; they are only typed.
pub proof fn law_comments_are_only_typed(
    config: ConfigView,
    state: SessionView,
    reply: ReplyView,
    comment: CommentView,
)
    requires
        fits(config, state),
        !is_over(state),
        state.phase != Phase::Setup,
        state.phase != Phase::Teardown,
        state.idx < resolved(config).steps.len(),
        resolved(config).steps[state.idx] == StepView::Comment(comment),
    ensures
        wanted(config, state) == ActionView::Nothing || wanted(config, state)
            == ActionView::Type(comment_typing(config, comment)),
        respond(config, state, reply).0.env == state.env,
        respond(config, state, reply).0.vars == state.vars,
{
}

/// A comment is typed like a command with the same text and settings that is not highlighted.
pub proof fn law_comments_are_typed_like_commands(
    config: ConfigView,
    comment: CommentView,
    cmd: CommandView,
)
    requires
        !config.highlight,
        comment.speed == cmd.speed,
        comment.delay == cmd.delay,
        comment.jitter == cmd.jitter,
        comment.pause == cmd.pause,
    ensures
        comment_typing(config, comment) == command_typing(config, cmd, comment.comment),
{
}

// ---------------------------------------------------------------------------
// Commands
// ---------------------------------------------------------------------------

/// A step whose conditions do not hold leaves no trace but that the next one comes.
pub proof fn law_skipped_steps_leave_no_trace(
    config: ConfigView,
    state: SessionView,
    reply: ReplyView,
    cmd: CommandView,
)
    requires
        state.phase == Phase::Begin,
        at_command(config, state, cmd),
        !conditions_hold(cmd.if_condition, cmd.unless, state.vars),
    ensures
        respond(config, state, reply) == (next_step(state), Seq::<OutputView>::empty()),
{
}

/// A hidden command runs silently: no prompt, no typing, no output, no wait.
pub proof fn law_hidden_commands_are_silent(
    config: ConfigView,
    state: SessionView,
    first: ReplyView,
    second: ReplyView,
    cmd: CommandView,
)
    requires
        state.phase == Phase::Begin,
        at_command(config, state, cmd),
        cmd.hidden,
        conditions_hold(cmd.if_condition, cmd.unless, state.vars),
    ensures
        ({
            let running = respond(config, state, first).0;
            let done = respond(config, running, second).0;
            &&& respond(config, state, first).1 == Seq::<OutputView>::empty()
            &&& wanted(config, running) matches ActionView::Run(_, mode) && (mode == RunMode::Hidden
                || mode == RunMode::HiddenCapture)
            &&& respond(config, running, second).1 == Seq::<OutputView>::empty()
            &&& done.idx == state.idx + 1
            &&& done.phase == Phase::Head
            &&& done.prompt_shown == state.prompt_shown
        }),
{
}

/// A command that is not to be executed is never run.
pub proof fn law_unexecuted_commands_do_not_run(
    config: ConfigView,
    state: SessionView,
    cmd: CommandView,
)
    requires
        fits(config, state),
        state.phase != Phase::Setup,
        state.phase != Phase::Teardown,
        at_command(config, state, cmd),
        !cmd.hidden,
        !cmd.execute,
    ensures
        !(wanted(config, state) is Run),
        !(wanted(config, state) is Watch),
        !(wanted(config, state) is Converse),
{
}

/// Where made-up output is shown, nothing of the real command is: it runs hidden, and nothing is
/// printed when it ends.
pub proof fn law_made_up_output_hides_the_real_one(
    config: ConfigView,
    state: SessionView,
    reply: ReplyView,
    cmd: CommandView,
)
    requires
        fits(config, state),
        state.phase != Phase::Setup,
        state.phase != Phase::Teardown,
        at_command(config, state, cmd),
        !cmd.hidden,
        cmd.fake_output is Some,
    ensures
        wanted(config, state) matches ActionView::Run(_, mode) ==> mode == RunMode::Hidden
            && respond(config, state, reply).1 == Seq::<OutputView>::empty(),
        !(wanted(config, state) is Watch),
        !(wanted(config, state) is Converse),
{
}

/// A value captured from a command becomes both a variable and a part of the environment of
/// later commands.
pub proof fn law_captured_values_are_shared(
    config: ConfigView,
    state: SessionView,
    reply: ReplyView,
    cmd: CommandView,
    value: Seq<char>,
)
    requires
        fits(config, state),
        distinct(state.vars),
        at_command(config, state, cmd),
        cmd.capture is Some,
        match state.phase {
            Phase::Running => {
                &&& wanted(config, state) is Run
                &&& reported(
                    outcome_in(reply),
                    cmd.capture,
                    config.show_exit_status,
                ).captured == Some(value)
            },
            Phase::HiddenRun => outcome_in(reply) matches OutcomeView::Ran(ran) && hidden_value(
                cmd.capture->0,
                ran.stdout,
            ) == Some(value),
            _ => false,
        },
    ensures
        ({
            let after = respond(config, state, reply).0;
            let name = cmd.capture->0.name;
            &&& distinct(after.vars)
            &&& bindings(after.vars) == bindings(state.vars).insert(name, value)
            &&& after.env.contains_key(name)
            &&& after.env[name] == value
        }),
{
    law_put(state.vars, cmd.capture->0.name, value);
}

/// Only running a command changes the environment, and only answers and captures change
/// variables.
pub proof fn law_nothing_else_changes_values(
    config: ConfigView,
    state: SessionView,
    reply: ReplyView,
)
    requires
        fits(config, state),
    ensures
        !(wanted(config, state) is Run || wanted(config, state) is Watch || wanted(
            config,
            state,
        ) is Converse) ==> respond(config, state, reply).0.env == state.env,
        !(wanted(config, state) is Run || wanted(config, state) is AwaitLine) ==> respond(
            config,
            state,
            reply,
        ).0.vars == state.vars,
{
}

/// Every command of a step, run, watched or talked to, sees the environment that the steps before
/// it left, with its own values laid over it.
pub proof fn law_jobs_see_the_environment(config: ConfigView, state: SessionView, cmd: CommandView)
    requires
        at_command(config, state, cmd),
        state.phase == Phase::HiddenRun || state.phase == Phase::Running || state.phase
            == Phase::QuietRun,
    ensures
        wanted(config, state) matches ActionView::Run(job, _) ==> job.env
            == state.env.union_prefer_right(cmd.env),
        wanted(config, state) matches ActionView::Watch(job, _) ==> job.env
            == state.env.union_prefer_right(cmd.env),
        wanted(config, state) matches ActionView::Converse(job, _) ==> job.env
            == state.env.union_prefer_right(cmd.env),
{
}

/// A command that waits for a pattern that is no regular expression is not started: nothing is
/// done for it, a note is printed, and the demo goes on as after any other command.
pub proof fn law_bad_patterns_start_nothing(
    config: ConfigView,
    state: SessionView,
    reply: ReplyView,
    cmd: CommandView,
    message: Seq<char>,
)
    requires
        state.phase == Phase::Running,
        at_command(config, state, cmd),
        cmd.execute,
        cmd.fake_output is None,
        cmd.wait_for matches Some(pattern) && compiled(pattern) == Err::<Regex, Seq<char>>(
            message,
        ),
    ensures
        wanted(config, state) == ActionView::Nothing,
        respond(config, state, reply) == (
            SessionView { phase: Phase::Settle, ..state },
            seq![OutputView::Stderr(bad_pattern_note(message))],
        ),
{
}

// ---------------------------------------------------------------------------
// Questions
// ---------------------------------------------------------------------------

/// The answer to a yes-or-no question decides which conditional steps run: its variable counts
/// as set exactly if the answer was yes.
pub proof fn law_answers_decide(config: ConfigView, state: SessionView, reply: ReplyView)
    requires
        fits(config, state),
        distinct(state.vars),
        state.phase == Phase::Question,
    ensures
        resolved(config).steps[state.idx] matches StepView::Ask(_, name) ==> is_set(
            respond(config, state, reply).0.vars,
            name,
        ) == is_yes(trimmed(line_in(reply))),
{
    match resolved(config).steps[state.idx] {
        StepView::Ask(_, name) => {
            law_put(state.vars, name, "y"@);
            law_without(state.vars, name);
            reveal_strlit("y");
            assert("y"@[0] == 'y');
            assert(!blank("y"@));
        },
        _ => {},
    }
}

proof fn lemma_trimmed_start(text: Seq<char>)
    ensures
        trim_start(text).len() > 0 ==> !white(trim_start(text)[0]),
    decreases text.len(),
{
    if text.len() > 0 && white(text[0]) {
        lemma_trimmed_start(text.skip(1));
    }
}

proof fn lemma_trimmed_end(text: Seq<char>)
    ensures
        trim_end(text).len() > 0 ==> !white(trim_end(text).last()),
    decreases text.len(),
{
    if text.len() > 0 && white(text.last()) {
        lemma_trimmed_end(text.drop_last());
    }
}

/// An answer is kept without the white space around it; an empty one gives way to the default.
pub proof fn law_input_is_kept(config: ConfigView, state: SessionView, reply: ReplyView)
    requires
        fits(config, state),
        distinct(state.vars),
        state.phase == Phase::Question,
    ensures
        resolved(config).steps[state.idx] matches StepView::Input(_, name, default) ==> {
            let after = bindings(respond(config, state, reply).0.vars);
            let answer = trimmed(line_in(reply));
            if answer.len() > 0 {
                &&& after.contains_key(name)
                &&& after[name] == answer
                &&& is_set(respond(config, state, reply).0.vars, name)
            } else {
                &&& after.contains_key(name) == (default is Some)
                &&& default matches Some(value) ==> after[name] == value
            }
        },
{
    match resolved(config).steps[state.idx] {
        StepView::Input(_, name, default) => {
            let line = line_in(reply);
            let answer = trimmed(line);
            law_put(state.vars, name, answer);
            if default is Some {
                law_put(state.vars, name, default->0);
            }
            law_without(state.vars, name);
            lemma_trimmed_start(line);
            lemma_trimmed_end(trim_start(line));
            if answer.len() > 0 {
                assert(!white(answer.last()));
                assert(!blank(answer));
            }
        },
        _ => {},
    }
}

// ---------------------------------------------------------------------------
// Chapters
// ---------------------------------------------------------------------------

/// A step leads to itself, to the next one, or to the start of a chapter. In that case the
/// chapter is announced when its first step comes.
pub proof fn law_steps_lead_on_or_to_chapters(
    config: ConfigView,
    state: SessionView,
    reply: ReplyView,
    next_reply: ReplyView,
)
    requires
        fits(config, state),
        !(state.phase == Phase::Setup || state.phase == Phase::Teardown),
        respond(config, state, reply).0.phase != Phase::Teardown,
    ensures
        ({
            let after = respond(config, state, reply).0;
            let demo = resolved(config);
            ||| after.idx == state.idx
            ||| after.idx == state.idx + 1
            ||| {
                &&& 0 <= after.chapter < demo.chapters.len()
                &&& after.idx == demo.chapters[after.chapter].start
                &&& after.phase == Phase::Head
                &&& after.idx < demo.steps.len() ==> respond(config, after, next_reply).1
                    == printed(header(demo.chapters[after.chapter].name))
            }
        }),
{
    if state.phase == Phase::Choice {
        let chapters = resolved(config).chapters;
        law_destination_exists(
            chapters,
            state.idx,
            nav_of(chapters.len() > 0, keys_in(reply)),
        );
    }
}

/// Every jump to a chapter announces it, also one to where the demo already is.
pub proof fn law_jumps_announce_the_chapter(
    config: ConfigView,
    state: SessionView,
    reply: ReplyView,
    next_reply: ReplyView,
    target: int,
)
    requires
        fits(config, state),
        state.phase == Phase::Choice,
        destination(
            resolved(config).chapters,
            state.idx,
            nav_of(resolved(config).chapters.len() > 0, keys_in(reply)),
        ) == Some(target),
        resolved(config).chapters[target].start < resolved(config).steps.len(),
    ensures
        ({
            let landed = respond(config, state, reply).0;
            let begun = respond(config, landed, next_reply).0;
            &&& respond(config, state, reply).1 == Seq::<OutputView>::empty()
            &&& respond(config, landed, next_reply).1 == printed(
                header(resolved(config).chapters[target].name),
            )
            &&& begun.idx == resolved(config).chapters[target].start
            &&& begun.phase == Phase::Begin
            &&& begun.env == state.env
            &&& begun.vars == state.vars
        }),
{
    let chapters = resolved(config).chapters;
    law_destination_exists(chapters, state.idx, nav_of(chapters.len() > 0, keys_in(reply)));
    law_chapters_start_at_steps(config, target);
}

// ---------------------------------------------------------------------------
// Pacing
// ---------------------------------------------------------------------------

/// With `wait_before`, Enter is waited for at the prompt before the command is typed.
pub proof fn law_wait_before_holds(
    config: ConfigView,
    state: SessionView,
    first: ReplyView,
    second: ReplyView,
    cmd: CommandView,
)
    requires
        state.phase == Phase::Begin,
        at_command(config, state, cmd),
        !cmd.hidden,
        conditions_hold(cmd.if_condition, cmd.unless, state.vars),
    ensures
        ({
            let begun = respond(config, state, first).0;
            &&& cmd.wait_before ==> wanted(config, begun) == ActionView::AwaitEnter && wanted(
                config,
                respond(config, begun, second).0,
            ) is Type
            &&& !cmd.wait_before ==> wanted(config, begun) is Type
        }),
{
}

/// With `wait_after`, a key is waited for once the command has finished and before the next step
/// comes; the prompt shown meanwhile is erased.
pub proof fn law_wait_after_holds(
    config: ConfigView,
    state: SessionView,
    first: ReplyView,
    second: ReplyView,
    cmd: CommandView,
)
    requires
        state.phase == Phase::Settle,
        at_command(config, state, cmd),
    ensures
        ({
            let settled = respond(config, state, first).0;
            &&& cmd.wait_after ==> {
                &&& respond(config, state, first).1 == printed(expanded(config.prompt))
                &&& wanted(config, settled) == ActionView::AwaitKey
                &&& respond(config, settled, second) == (
                    next_step(state),
                    printed("\r\x1B[2K"@),
                )
            }
            &&& !cmd.wait_after ==> settled == next_step(state)
        }),
{
}

/// A demo that advances by itself is hands-free: a command is run as soon as it is typed, with no
/// way to navigate, the time is waited once it has finished, and a `pause` waits for that time
/// too.
pub proof fn law_auto_advance_is_hands_free(
    config: ConfigView,
    state: SessionView,
    reply: ReplyView,
    ms: u64,
)
    requires
        fits(config, state),
        config.auto_advance == Some(ms),
    ensures
        wanted(config, state) != ActionView::AwaitInput,
        state.phase == Phase::Hold ==> wanted(config, state) == ActionView::Sleep(ms),
        state.phase == Phase::CommandTyping ==> respond(config, state, reply).0.phase
            == Phase::Running,
        state.phase == Phase::Settle ==> (resolved(config).steps[state.idx] matches StepView::Command(
            cmd,
        ) && wanted(config, state) == ActionView::Sleep(
            match cmd.wait {
                Some(own) => own,
                None => ms,
            },
        )),
{
}

/// However a command is run, its turn ends in the same way: the time to advance by itself, if
/// there is one, begins once it has finished.
pub proof fn law_finished_commands_settle(
    config: ConfigView,
    state: SessionView,
    reply: ReplyView,
)
    requires
        fits(config, state),
        state.phase == Phase::Running || state.phase == Phase::QuietRun,
    ensures
        ({
            let after = respond(config, state, reply).0;
            &&& after.idx == state.idx
            &&& after.phase == Phase::Settle || (state.phase == Phase::Running && after.phase
                == Phase::QuietRun)
        }),
{
}

// ---------------------------------------------------------------------------
// The end
// ---------------------------------------------------------------------------

/// How far a phase is from the end of its step.
pub open spec fn phase_rank(phase: Phase) -> nat {
    match phase {
        Phase::Head => 9,
        Phase::Begin => 8,
        Phase::BeforeHold => 7,
        Phase::CommandTyping => 6,
        Phase::Choice => 5,
        Phase::Running => 4,
        Phase::QuietRun => 3,
        Phase::Settle => 2,
        _ => 1,
    }
}

/// More replies than it takes a demo to come to its end, unless it goes back to a chapter.
pub open spec fn replies_left(config: ConfigView, state: SessionView) -> int {
    let steps = resolved(config).steps.len();
    let teardown = commands(config.teardown).len();
    match state.phase {
        Phase::Finished => 0,
        Phase::Aborted => 0,
        Phase::Teardown => 1 + teardown - state.idx,
        Phase::Setup => 1 + (commands(config.setup).len() - state.idx) + 10 + 10 * steps + 1
            + teardown,
        _ => 10 * (steps - state.idx) + phase_rank(state.phase) + 1 + teardown,
    }
}

/// Every reply brings a demo nearer to its end, unless it is sent to another chapter.
pub proof fn law_demo_moves_on(config: ConfigView, state: SessionView, reply: ReplyView)
    requires
        fits(config, state),
        !is_over(state),
        state.phase == Phase::Choice ==> destination(
            resolved(config).chapters,
            state.idx,
            nav_of(resolved(config).chapters.len() > 0, keys_in(reply)),
        ) is None,
    ensures
        0 <= replies_left(config, respond(config, state, reply).0) < replies_left(config, state),
{
}

/// The state that a demo is in after `n` replies.
pub open spec fn played(
    config: ConfigView,
    state: SessionView,
    replies: Seq<ReplyView>,
    n: int,
) -> SessionView
    decreases n,
{
    if n <= 0 {
        state
    } else {
        respond(config, played(config, state, replies, n - 1), replies[n - 1]).0
    }
}

/// At any time, the state of a demo fits it.
pub proof fn law_demo_stays_in_step(
    config: ConfigView,
    state: SessionView,
    replies: Seq<ReplyView>,
    n: int,
)
    requires
        fits(config, state),
        0 <= n <= replies.len(),
    ensures
        fits(config, played(config, state, replies, n)),
    decreases n,
{
    if n > 0 {
        law_demo_stays_in_step(config, state, replies, n - 1);
        law_state_goes_on_to_fit(
            config,
            played(config, state, replies, n - 1),
            replies[n - 1],
        );
    }
}

/// Whatever the replies, no variable is ever there twice.
pub proof fn law_names_stay_distinct(config: ConfigView, state: SessionView, reply: ReplyView)
    requires
        distinct(state.vars),
    ensures
        distinct(respond(config, state, reply).0.vars),
{
    match resolved(config).steps[state.idx] {
        StepView::Ask(_, name) => {
            law_put(state.vars, name, "y"@);
            law_without(state.vars, name);
        },
        StepView::Input(_, name, default) => {
            law_put(state.vars, name, trimmed(line_in(reply)));
            if default is Some {
                law_put(state.vars, name, default->0);
            }
            law_without(state.vars, name);
        },
        StepView::Command(cmd) => {
            if cmd.capture is Some {
                let capture = cmd.capture->0;
                let report = reported(outcome_in(reply), cmd.capture, config.show_exit_status);
                if report.captured is Some {
                    law_put(state.vars, capture.name, report.captured->0);
                }
                match outcome_in(reply) {
                    OutcomeView::Ran(ran) => {
                        let value = hidden_value(capture, ran.stdout);
                        if value is Some {
                            law_put(state.vars, capture.name, value->0);
                        }
                    },
                    OutcomeView::Failed(_) => {},
                }
            }
        },
        _ => {},
    }
}

/// At any time, no variable is there twice.
pub proof fn law_names_are_always_distinct(
    config: ConfigView,
    state: SessionView,
    replies: Seq<ReplyView>,
    n: int,
)
    requires
        distinct(state.vars),
        0 <= n <= replies.len(),
    ensures
        distinct(played(config, state, replies, n).vars),
    decreases n,
{
    if n > 0 {
        law_names_are_always_distinct(config, state, replies, n - 1);
        law_names_stay_distinct(
            config,
            played(config, state, replies, n - 1),
            replies[n - 1],
        );
    }
}

/// From its start on, a demo is in a state that fits it and in which no variable is there twice,
/// whatever the replies.
pub proof fn law_every_reached_state_is_sound(
    config: ConfigView,
    env: Map<Seq<char>, Seq<char>>,
    replies: Seq<ReplyView>,
    n: int,
)
    requires
        0 <= n <= replies.len(),
    ensures
        fits(config, played(config, opening(env), replies, n)),
        distinct(played(config, opening(env), replies, n).vars),
{
    law_opening_fits(config, env);
    law_demo_stays_in_step(config, opening(env), replies, n);
    law_names_are_always_distinct(config, opening(env), replies, n);
}

/// A demo that advances by itself comes to its end, whatever the replies.
pub proof fn law_hands_free_demo_ends(
    config: ConfigView,
    state: SessionView,
    replies: Seq<ReplyView>,
    n: int,
)
    requires
        fits(config, state),
        config.auto_advance is Some,
        0 <= n <= replies.len(),
        n >= replies_left(config, state),
    ensures
        is_over(played(config, state, replies, n)),
{
    lemma_replies_left(config, state, replies, n);
}

proof fn lemma_replies_left(
    config: ConfigView,
    state: SessionView,
    replies: Seq<ReplyView>,
    n: int,
)
    requires
        fits(config, state),
        config.auto_advance is Some,
        0 <= n <= replies.len(),
    ensures
        is_over(played(config, state, replies, n)) || 0 < replies_left(
            config,
            played(config, state, replies, n),
        ) <= replies_left(config, state) - n,
    decreases n,
{
    if n > 0 {
        let before = played(config, state, replies, n - 1);
        lemma_replies_left(config, state, replies, n - 1);
        law_demo_stays_in_step(config, state, replies, n - 1);
        if is_over(before) {
            law_end_is_final(config, before, replies[n - 1]);
        } else {
            law_demo_moves_on(config, before, replies[n - 1]);
        }
    }
}

}
