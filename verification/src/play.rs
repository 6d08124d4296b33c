//! How a demo plays: what is to be done at each point, and what follows from how it went.
//!
//! A demo alternates between actions that the player performs (sleeping, typing, running
//! commands, waiting for keys) and replies that tell how they went. This module says what the
//! next action is and where a reply leads; `session` computes it.

use crate::color::{expanded, style_code, HL_RESET};
use crate::conditions::conditions_hold;
use crate::config::{CaptureView, CommandView, CommentView, ConfigView, InteractionView, StepView};
use crate::demo::{interactions_view, law_chapters_in_order, resolved, InteractionRef};
use crate::dry_run::{chapter_due, header};
use crate::highlight::{alnum_marks, color_code, painted};
use crate::nav::{destination, law_destination_exists, nav_of, NavAction};
use crate::pattern::compiled;
use crate::run::{
    attended_notes, env_after_attended, env_after_outcome, hidden_value, housekeeping_note,
    reported, Attended, AttendedView, Outcome, OutcomeView, OutputView,
};
use crate::snapshot::reporting_script;
use crate::substitute::substituted;
use crate::text::trimmed;
use crate::timing::{or_global, speed_delay, text_delay};
use crate::typing::{coloured_strokes, plain_strokes, Typing, TypingView};
use crate::vars::{bindings, put, without, Entries, Vars};
use crate::watch::{bad_pattern_note, Watch, WatchView};
use vstd::prelude::*;

verus! {

broadcast use vstd::seq::group_seq_axioms;

// ---------------------------------------------------------------------------
// States
// ---------------------------------------------------------------------------

/// What a demo is doing.
#[derive(Clone, Copy, PartialEq, Eq, Structural, Debug)]
pub enum Phase {
    /// Running the setup commands.
    Setup,
    /// At the start of a step, where a chapter may start.
    Head,
    /// Looking at a step.
    Begin,
    /// Holding at a `pause`.
    Hold,
    /// Holding for a given time.
    TimedHold,
    /// Waiting for an answer.
    Question,
    /// Typing a comment.
    CommentTyping,
    /// Running a command unseen.
    HiddenRun,
    /// Holding before a command is typed.
    BeforeHold,
    /// Typing a command.
    CommandTyping,
    /// Waiting for Enter, or for a chapter to go to, before a typed command is run.
    Choice,
    /// Running a command, or showing its made-up output.
    Running,
    /// Running a command whose made-up output was shown.
    QuietRun,
    /// Advancing by itself once a command has finished.
    Settle,
    /// Holding after a command.
    AfterHold,
    /// Running the teardown commands.
    Teardown,
    /// The end.
    Finished,
    /// Giving up.
    Aborted,
}

/// The state of a demo: the environment of its commands, its variables, the step (or the setup
/// or teardown command) that is current, the chapter that comes next, and whether a prompt
/// already stands on the current line.
#[verifier::ext_equal]
pub struct SessionView {
    pub env: Map<Seq<char>, Seq<char>>,
    pub vars: Entries,
    pub idx: int,
    pub chapter: int,
    pub prompt_shown: bool,
    pub phase: Phase,
}

/// A list of commands, where none stands for an empty one.
pub open spec fn commands(list: Option<Seq<Seq<char>>>) -> Seq<Seq<char>> {
    match list {
        Some(c) => c,
        None => Seq::empty(),
    }
}

/// How long a command advances by itself after, if it does: its own time, or else the global
/// one.
pub open spec fn auto_wait(config: ConfigView, cmd: CommandView) -> Option<u64> {
    match cmd.wait {
        Some(ms) => Some(ms),
        None => config.auto_advance,
    }
}

/// The state fits the demo: its position exists, and the current step is one that the phase is
/// about.
pub open spec fn fits(config: ConfigView, state: SessionView) -> bool {
    let demo = resolved(config);
    let here = 0 <= state.idx < demo.steps.len();
    let step = demo.steps[state.idx];
    &&& state.idx >= 0
    &&& 0 <= state.chapter <= demo.chapters.len()
    &&& match state.phase {
        Phase::Setup => state.idx <= commands(config.setup).len(),
        Phase::Teardown => state.idx <= commands(config.teardown).len(),
        Phase::Finished => true,
        Phase::Aborted => true,
        Phase::Head => state.idx <= demo.steps.len(),
        Phase::Begin => here,
        Phase::Hold => here && step is Directive,
        Phase::TimedHold => here && step is TimedPause,
        Phase::Question => here && (step is Ask || step is Input),
        Phase::CommentTyping => here && step is Comment,
        Phase::HiddenRun => here && (step matches StepView::Command(cmd) && cmd.hidden),
        Phase::BeforeHold => here && (step matches StepView::Command(cmd) && !cmd.hidden),
        Phase::CommandTyping => here && (step matches StepView::Command(cmd) && !cmd.hidden),
        Phase::Choice => here && (step matches StepView::Command(cmd) && !cmd.hidden && auto_wait(
            config,
            cmd,
        ) is None),
        Phase::Running => here && (step matches StepView::Command(cmd) && !cmd.hidden),
        Phase::QuietRun => here && (step matches StepView::Command(cmd) && !cmd.hidden
            && cmd.execute && cmd.fake_output is Some),
        Phase::Settle => here && (step matches StepView::Command(cmd) && !cmd.hidden),
        Phase::AfterHold => here && (step matches StepView::Command(cmd) && !cmd.hidden),
    }
}

// ---------------------------------------------------------------------------
// Actions
// ---------------------------------------------------------------------------

/// A shell script and the environment it runs in.
pub struct Job {
    pub script: String,
    pub env: Vars,
}

/// The contents of a [`Job`].
#[verifier::ext_equal]
pub struct JobView {
    pub script: Seq<char>,
    pub env: Map<Seq<char>, Seq<char>>,
}

impl View for Job {
    type V = JobView;

    open spec fn view(&self) -> JobView {
        JobView { script: self.script@, env: bindings(self.env@) }
    }
}

/// What becomes of the input and the outputs of a command.
#[derive(Clone, Copy, PartialEq, Eq, Structural, Debug)]
pub enum RunMode {
    /// It has no input, and what it prints is dropped.
    Hidden,
    /// It has no input, its standard output is collected, and its error output is dropped.
    HiddenCapture,
    /// It shares input and outputs with the demo.
    Visible,
    /// It shares its input with the demo, and both outputs are collected.
    VisibleCapture,
}

/// What is to be done next.
pub enum Action {
    /// Nothing.
    Nothing,
    /// Sleep for so many milliseconds.
    Sleep(u64),
    /// Wait for Enter.
    AwaitEnter,
    /// Wait for any key.
    AwaitKey,
    /// Read a line.
    AwaitLine,
    /// Read keys up to Enter.
    AwaitInput,
    /// Type a text.
    Type(Typing),
    /// Run a command to its end.
    Run(Job, RunMode),
    /// Run a command and watch what it prints.
    Watch(Job, Watch),
    /// Run a command and talk to it.
    Converse(Job, Vec<InteractionRef>),
    /// End with this exit code.
    Exit(i32),
    /// End.
    Finish,
}

/// The contents of an [`Action`].
#[verifier::ext_equal]
pub enum ActionView {
    Nothing,
    Sleep(u64),
    AwaitEnter,
    AwaitKey,
    AwaitLine,
    AwaitInput,
    Type(TypingView),
    Run(JobView, RunMode),
    Watch(JobView, WatchView),
    Converse(JobView, Seq<InteractionView>),
    Exit(i32),
    Finish,
}

impl View for Action {
    type V = ActionView;

    open spec fn view(&self) -> ActionView {
        match *self {
            Action::Nothing => ActionView::Nothing,
            Action::Sleep(ms) => ActionView::Sleep(ms),
            Action::AwaitEnter => ActionView::AwaitEnter,
            Action::AwaitKey => ActionView::AwaitKey,
            Action::AwaitLine => ActionView::AwaitLine,
            Action::AwaitInput => ActionView::AwaitInput,
            Action::Type(typing) => ActionView::Type(typing@),
            Action::Run(job, mode) => ActionView::Run(job@, mode),
            Action::Watch(job, watch) => ActionView::Watch(job@, watch@),
            Action::Converse(job, script) => ActionView::Converse(
                job@,
                interactions_view(script@),
            ),
            Action::Exit(code) => ActionView::Exit(code),
            Action::Finish => ActionView::Finish,
        }
    }
}

/// The characters of a command with their colours.
pub open spec fn coloured(text: Seq<char>) -> Seq<(char, Seq<char>)> {
    Seq::new(
        text.len(),
        |i: int| (text[i], color_code(painted(text, alnum_marks(text), 0, true)[i])),
    )
}

/// How a command is typed.
pub open spec fn command_typing(config: ConfigView, cmd: CommandView, text: Seq<char>) -> TypingView {
    let pause = or_global(cmd.pause, config.pause);
    TypingView {
        strokes: if config.highlight {
            coloured_strokes(coloured(text), pause)
        } else {
            plain_strokes(text, pause)
        },
        delay: text_delay(cmd.speed, cmd.delay, config.speed, config.delay) as u64,
        jitter: or_global(cmd.jitter, config.jitter),
        tail: if config.highlight {
            HL_RESET@
        } else {
            Seq::empty()
        },
    }
}

/// How a comment is typed.
pub open spec fn comment_typing(config: ConfigView, comment: CommentView) -> TypingView {
    TypingView {
        strokes: plain_strokes(comment.comment, or_global(comment.pause, config.pause)),
        delay: text_delay(comment.speed, comment.delay, config.speed, config.delay) as u64,
        jitter: or_global(comment.jitter, config.jitter),
        tail: Seq::empty(),
    }
}

/// How made-up output is typed.
pub open spec fn fake_typing(
    config: ConfigView,
    cmd: CommandView,
    fake: Seq<char>,
    speed: u64,
) -> TypingView {
    TypingView {
        strokes: plain_strokes(fake, 0),
        delay: speed_delay(speed as nat) as u64,
        jitter: or_global(cmd.jitter, config.jitter),
        tail: Seq::empty(),
    }
}

/// Running the command of a step: variables are filled in, and the step's own environment is
/// laid over that of the demo.
pub open spec fn command_job(state: SessionView, cmd: CommandView) -> JobView {
    JobView {
        script: reporting_script(substituted(cmd.text, state.vars)),
        env: state.env.union_prefer_right(cmd.env),
    }
}

/// Running the current setup or teardown command, while there is one.
pub open spec fn housekeeping(list: Seq<Seq<char>>, state: SessionView) -> ActionView {
    if state.idx < list.len() {
        ActionView::Run(
            JobView { script: reporting_script(list[state.idx]), env: state.env },
            RunMode::Hidden,
        )
    } else {
        ActionView::Nothing
    }
}

/// What is done for a command once it is typed.
pub open spec fn running_action(
    config: ConfigView,
    state: SessionView,
    cmd: CommandView,
) -> ActionView {
    let job = command_job(state, cmd);
    match (cmd.fake_output, cmd.output_speed) {
        (Some(fake), Some(speed)) => ActionView::Type(fake_typing(config, cmd, fake, speed)),
        (Some(_), None) => ActionView::Nothing,
        (None, _) => if !cmd.execute {
            ActionView::Nothing
        } else {
            match (cmd.wait_for, cmd.interact) {
                (Some(pattern), _) => match compiled(pattern) {
                    Ok(regex) => ActionView::Watch(
                        job,
                        WatchView { regex, timeout: cmd.timeout, output: Seq::empty() },
                    ),
                    Err(_) => ActionView::Nothing,
                },
                (None, Some(script)) => ActionView::Converse(job, script),
                (None, None) => ActionView::Run(
                    job,
                    if cmd.capture is Some {
                        RunMode::VisibleCapture
                    } else {
                        RunMode::Visible
                    },
                ),
            }
        },
    }
}

/// What is done for a command.
pub open spec fn command_action(
    config: ConfigView,
    state: SessionView,
    cmd: CommandView,
) -> ActionView {
    match state.phase {
        Phase::HiddenRun => ActionView::Run(
            command_job(state, cmd),
            if cmd.capture is Some {
                RunMode::HiddenCapture
            } else {
                RunMode::Hidden
            },
        ),
        Phase::BeforeHold => ActionView::AwaitEnter,
        Phase::CommandTyping => ActionView::Type(
            command_typing(config, cmd, substituted(cmd.text, state.vars)),
        ),
        Phase::Choice => ActionView::AwaitInput,
        Phase::Running => running_action(config, state, cmd),
        Phase::QuietRun => ActionView::Run(command_job(state, cmd), RunMode::Hidden),
        Phase::Settle => match auto_wait(config, cmd) {
            Some(ms) => ActionView::Sleep(ms),
            None => ActionView::Nothing,
        },
        Phase::AfterHold => ActionView::AwaitKey,
        _ => ActionView::Nothing,
    }
}

/// What is to be done next.
pub open spec fn wanted(config: ConfigView, state: SessionView) -> ActionView {
    match state.phase {
        Phase::Setup => housekeeping(commands(config.setup), state),
        Phase::Teardown => housekeeping(commands(config.teardown), state),
        Phase::Finished => ActionView::Finish,
        Phase::Aborted => ActionView::Exit(1),
        Phase::Head => ActionView::Nothing,
        Phase::Begin => ActionView::Nothing,
        Phase::Hold => match config.auto_advance {
            Some(ms) => ActionView::Sleep(ms),
            None => ActionView::AwaitEnter,
        },
        Phase::Question => ActionView::AwaitLine,
        _ => match resolved(config).steps[state.idx] {
            StepView::TimedPause(ms) => ActionView::Sleep(ms),
            StepView::Comment(comment) => ActionView::Type(comment_typing(config, comment)),
            StepView::Command(cmd) => command_action(config, state, cmd),
            _ => ActionView::Nothing,
        },
    }
}

// ---------------------------------------------------------------------------
// Replies
// ---------------------------------------------------------------------------

/// How an action went.
pub enum Reply {
    /// It was performed.
    Done,
    /// This line was read.
    Line(String),
    /// These keys were pressed before Enter.
    Keys(Vec<u8>),
    /// An attempt to run a command ended like this.
    Outcome(Outcome),
    /// An attempt to watch a command, or to talk to one, ended like this.
    Attended(Attended),
}

/// The contents of a [`Reply`].
pub enum ReplyView {
    Done,
    Line(Seq<char>),
    Keys(Seq<u8>),
    Outcome(OutcomeView),
    Attended(AttendedView),
}

impl View for Reply {
    type V = ReplyView;

    open spec fn view(&self) -> ReplyView {
        match *self {
            Reply::Done => ReplyView::Done,
            Reply::Line(line) => ReplyView::Line(line@),
            Reply::Keys(keys) => ReplyView::Keys(keys@),
            Reply::Outcome(outcome) => ReplyView::Outcome(outcome@),
            Reply::Attended(attended) => ReplyView::Attended(attended@),
        }
    }
}

/// The line in a reply; an empty one where there is none.
pub open spec fn line_in(reply: ReplyView) -> Seq<char> {
    match reply {
        ReplyView::Line(line) => line,
        _ => Seq::empty(),
    }
}

/// The keys in a reply; none where there are none.
pub open spec fn keys_in(reply: ReplyView) -> Seq<u8> {
    match reply {
        ReplyView::Keys(keys) => keys,
        _ => Seq::empty(),
    }
}

/// The outcome in a reply; a failure without a reason where there is none.
pub open spec fn outcome_in(reply: ReplyView) -> OutcomeView {
    match reply {
        ReplyView::Outcome(outcome) => outcome,
        _ => OutcomeView::Failed(Seq::empty()),
    }
}

/// How an attended command ended. One that waits for a pattern that is no regular expression is
/// refused; a reply that does not tell counts as a failure without a reason.
pub open spec fn attended_in(cmd: CommandView, reply: ReplyView) -> AttendedView {
    let told = match reply {
        ReplyView::Attended(attended) => attended,
        _ => AttendedView::Failed(Seq::empty()),
    };
    match cmd.wait_for {
        Some(pattern) => match compiled(pattern) {
            Ok(_) => told,
            Err(message) => AttendedView::Refused(bad_pattern_note(message)),
        },
        None => told,
    }
}

// ---------------------------------------------------------------------------
// What follows from a reply
// ---------------------------------------------------------------------------

/// Clears the screen.
pub const CLEAR_SCREEN: &'static str = "\x1B[2J\x1B[H";

/// Erases the current line.
pub const ERASE_LINE: &'static str = "\r\x1B[2K";

/// The next state, and what is printed on the way to it.
pub type Turn = (SessionView, Seq<OutputView>);

/// On to the next step.
pub open spec fn next_step(state: SessionView) -> SessionView {
    SessionView { idx: state.idx + 1, phase: Phase::Head, ..state }
}

/// A text on the standard output.
pub open spec fn printed(text: Seq<char>) -> Seq<OutputView> {
    seq![OutputView::Stdout(text)]
}

/// The prompt, unless it already stands there.
pub open spec fn prompt_once(config: ConfigView, state: SessionView) -> Seq<OutputView> {
    if state.prompt_shown {
        Seq::empty()
    } else {
        printed(expanded(config.prompt))
    }
}

/// A yes-or-no question.
pub open spec fn ask_text(message: Seq<char>) -> Seq<char> {
    "\x1B[33m?\x1B[0m "@ + message + " \x1B[2m[y/N]\x1B[0m "@
}

/// A question with its default.
pub open spec fn input_text(message: Seq<char>, default: Option<Seq<char>>) -> Seq<char> {
    "\x1B[33m?\x1B[0m "@ + message + " \x1B[2m["@ + (match default {
        Some(value) => value,
        None => "enter"@,
    }) + "]\x1B[0m "@
}

/// `y` or `yes`, in letters of either case.
pub open spec fn is_yes(answer: Seq<char>) -> bool {
    &&& answer.len() == 1 || answer.len() == 3
    &&& answer[0] == 'y' || answer[0] == 'Y'
    &&& answer.len() == 3 ==> (answer[1] == 'e' || answer[1] == 'E') && (answer[2] == 's'
        || answer[2] == 'S')
}

/// A variable with a value, or without one.
pub open spec fn assigned(vars: Entries, name: Seq<char>, value: Option<Seq<char>>) -> Entries {
    match value {
        Some(v) => put(vars, name, v),
        None => without(vars, name),
    }
}

/// What the answer to a yes-or-no question sets its variable to.
pub open spec fn ask_value(line: Seq<char>) -> Option<Seq<char>> {
    if is_yes(trimmed(line)) {
        Some("y"@)
    } else {
        None
    }
}

/// What the answer to a question sets its variable to.
pub open spec fn input_value(line: Seq<char>, default: Option<Seq<char>>) -> Option<Seq<char>> {
    if trimmed(line).len() == 0 {
        default
    } else {
        Some(trimmed(line))
    }
}

/// The state with a captured value, if there is one, in a variable and in the environment.
pub open spec fn with_captured(
    state: SessionView,
    capture: Option<CaptureView>,
    value: Option<Seq<char>>,
) -> SessionView {
    match (capture, value) {
        (Some(c), Some(v)) => SessionView {
            vars: put(state.vars, c.name, v),
            env: state.env.insert(c.name, v),
            ..state
        },
        _ => state,
    }
}

/// After a setup or teardown command.
pub open spec fn after_housekeeping(
    command: Seq<char>,
    state: SessionView,
    outcome: OutcomeView,
) -> Turn {
    (
        SessionView {
            env: env_after_outcome(state.env, Map::empty(), outcome),
            idx: state.idx + 1,
            ..state
        },
        housekeeping_note(command, outcome),
    )
}

/// The setup goes on, or the demo starts.
pub open spec fn after_setup(config: ConfigView, state: SessionView, reply: ReplyView) -> Turn {
    let list = commands(config.setup);
    if state.idx < list.len() {
        after_housekeeping(list[state.idx], state, outcome_in(reply))
    } else {
        (
            SessionView { idx: 0, phase: Phase::Head, ..state },
            if config.clear {
                printed(CLEAR_SCREEN@)
            } else {
                Seq::empty()
            },
        )
    }
}

/// The teardown goes on, or the demo is over.
pub open spec fn after_teardown(config: ConfigView, state: SessionView, reply: ReplyView) -> Turn {
    let list = commands(config.teardown);
    if state.idx < list.len() {
        after_housekeeping(list[state.idx], state, outcome_in(reply))
    } else {
        (SessionView { phase: Phase::Finished, ..state }, Seq::empty())
    }
}

/// A chapter is announced where it starts. Behind the last step comes the teardown.
pub open spec fn after_head(config: ConfigView, state: SessionView) -> Turn {
    let demo = resolved(config);
    if state.idx < demo.steps.len() {
        if chapter_due(demo, state.idx, state.chapter) {
            (
                SessionView { chapter: state.chapter + 1, phase: Phase::Begin, ..state },
                printed(header(demo.chapters[state.chapter].name)),
            )
        } else {
            (SessionView { phase: Phase::Begin, ..state }, Seq::empty())
        }
    } else {
        (SessionView { idx: 0, phase: Phase::Teardown, ..state }, Seq::empty())
    }
}

/// A directive is followed; an unknown one ends the demo.
pub open spec fn after_directive(
    config: ConfigView,
    state: SessionView,
    directive: Seq<char>,
) -> Turn {
    if directive == "pause"@ {
        (SessionView { phase: Phase::Hold, ..state }, printed(expanded(config.prompt)))
    } else if directive == "clear"@ {
        (
            next_step(SessionView { prompt_shown: false, ..state }),
            printed(CLEAR_SCREEN@),
        )
    } else {
        (
            SessionView { phase: Phase::Aborted, ..state },
            seq![
                OutputView::Stderr("[demonator] unknown directive: "@ + directive + "\n"@),
            ],
        )
    }
}

/// A command is skipped, run unseen, or typed at the prompt.
pub open spec fn after_command_begin(
    config: ConfigView,
    state: SessionView,
    cmd: CommandView,
) -> Turn {
    if !conditions_hold(cmd.if_condition, cmd.unless, state.vars) {
        (next_step(state), Seq::empty())
    } else if cmd.hidden {
        (SessionView { phase: Phase::HiddenRun, ..state }, Seq::empty())
    } else {
        (
            SessionView {
                prompt_shown: false,
                phase: if cmd.wait_before {
                    Phase::BeforeHold
                } else {
                    Phase::CommandTyping
                },
                ..state
            },
            prompt_once(config, state),
        )
    }
}

/// A step begins.
pub open spec fn after_begin(config: ConfigView, state: SessionView) -> Turn {
    match resolved(config).steps[state.idx] {
        StepView::Directive(directive) => after_directive(config, state, directive),
        StepView::TimedPause(_) => (
            SessionView { prompt_shown: true, phase: Phase::TimedHold, ..state },
            prompt_once(config, state),
        ),
        StepView::Ask(message, _) => (
            SessionView { phase: Phase::Question, ..state },
            printed(ask_text(message)),
        ),
        StepView::Input(message, _, default) => (
            SessionView { phase: Phase::Question, ..state },
            printed(input_text(message, default)),
        ),
        StepView::Comment(comment) => (
            SessionView { prompt_shown: false, phase: Phase::CommentTyping, ..state },
            prompt_once(config, state) + printed(style_code(comment.style)),
        ),
        StepView::Command(cmd) => after_command_begin(config, state, cmd),
    }
}

/// An answer becomes the value of a variable.
pub open spec fn after_question(config: ConfigView, state: SessionView, reply: ReplyView) -> Turn {
    let line = line_in(reply);
    let vars = match resolved(config).steps[state.idx] {
        StepView::Ask(_, name) => assigned(state.vars, name, ask_value(line)),
        StepView::Input(_, name, default) => assigned(
            state.vars,
            name,
            input_value(line, default),
        ),
        _ => state.vars,
    };
    (next_step(SessionView { vars, ..state }), Seq::empty())
}

/// A command has run unseen.
pub open spec fn after_hidden_run(
    state: SessionView,
    cmd: CommandView,
    outcome: OutcomeView,
) -> Turn {
    let settled = SessionView { env: env_after_outcome(state.env, cmd.env, outcome), ..state };
    let value = match (cmd.capture, outcome) {
        (Some(capture), OutcomeView::Ran(ran)) => hidden_value(capture, ran.stdout),
        _ => None,
    };
    (next_step(with_captured(settled, cmd.capture, value)), Seq::empty())
}

/// A command that was typed is run at once where the demo advances by itself; elsewhere the
/// choice is left to whoever presents it.
pub open spec fn after_command_typing(
    config: ConfigView,
    state: SessionView,
    cmd: CommandView,
) -> Turn {
    if auto_wait(config, cmd) is Some {
        (SessionView { phase: Phase::Running, ..state }, printed("\n"@))
    } else {
        (SessionView { phase: Phase::Choice, ..state }, Seq::empty())
    }
}

/// The demo goes to another chapter, or on with the command.
pub open spec fn after_choice(config: ConfigView, state: SessionView, reply: ReplyView) -> Turn {
    let chapters = resolved(config).chapters;
    let action = nav_of(chapters.len() > 0, keys_in(reply));
    match destination(chapters, state.idx, action) {
        Some(target) => (
            SessionView {
                idx: chapters[target].start,
                chapter: target,
                phase: Phase::Head,
                ..state
            },
            Seq::empty(),
        ),
        None => (
            SessionView { phase: Phase::Running, ..state },
            if action == NavAction::Continue {
                printed("\n"@)
            } else {
                Seq::empty()
            },
        ),
    }
}

/// A command that was watched or talked to is over.
pub open spec fn after_attended(
    state: SessionView,
    cmd: CommandView,
    attended: AttendedView,
) -> Turn {
    (
        SessionView {
            env: env_after_attended(state.env, cmd.env, attended),
            phase: Phase::Settle,
            ..state
        },
        attended_notes(attended),
    )
}

/// A command has run for all to see.
pub open spec fn after_visible_run(
    config: ConfigView,
    state: SessionView,
    cmd: CommandView,
    outcome: OutcomeView,
) -> Turn {
    let report = reported(outcome, cmd.capture, config.show_exit_status);
    let settled = SessionView {
        env: env_after_outcome(state.env, cmd.env, outcome),
        phase: Phase::Settle,
        ..state
    };
    (with_captured(settled, cmd.capture, report.captured), report.outputs)
}

/// A command has run, or its made-up output is shown.
pub open spec fn after_running(
    config: ConfigView,
    state: SessionView,
    cmd: CommandView,
    reply: ReplyView,
) -> Turn {
    match cmd.fake_output {
        Some(fake) => (
            SessionView {
                phase: if cmd.execute {
                    Phase::QuietRun
                } else {
                    Phase::Settle
                },
                ..state
            },
            if cmd.output_speed is Some {
                printed("\n"@)
            } else {
                printed(fake)
            },
        ),
        None => if !cmd.execute {
            (SessionView { phase: Phase::Settle, ..state }, Seq::empty())
        } else if cmd.wait_for is Some || cmd.interact is Some {
            after_attended(state, cmd, attended_in(cmd, reply))
        } else {
            after_visible_run(config, state, cmd, outcome_in(reply))
        },
    }
}

/// The hold after a command, if it has one.
pub open spec fn after_settle(config: ConfigView, state: SessionView, cmd: CommandView) -> Turn {
    if cmd.wait_after {
        (SessionView { phase: Phase::AfterHold, ..state }, printed(expanded(config.prompt)))
    } else {
        (next_step(state), Seq::empty())
    }
}

/// What follows from a reply to what was done for a command.
pub open spec fn after_command(
    config: ConfigView,
    state: SessionView,
    cmd: CommandView,
    reply: ReplyView,
) -> Turn {
    match state.phase {
        Phase::HiddenRun => after_hidden_run(state, cmd, outcome_in(reply)),
        Phase::BeforeHold => (
            SessionView { phase: Phase::CommandTyping, ..state },
            Seq::empty(),
        ),
        Phase::CommandTyping => after_command_typing(config, state, cmd),
        Phase::Choice => after_choice(config, state, reply),
        Phase::Running => after_running(config, state, cmd, reply),
        Phase::QuietRun => (
            SessionView {
                env: env_after_outcome(state.env, cmd.env, outcome_in(reply)),
                phase: Phase::Settle,
                ..state
            },
            Seq::empty(),
        ),
        Phase::Settle => after_settle(config, state, cmd),
        Phase::AfterHold => (next_step(state), printed(ERASE_LINE@)),
        _ => (state, Seq::empty()),
    }
}

/// What follows from a reply: the next state, and what is printed on the way to it.
pub open spec fn respond(config: ConfigView, state: SessionView, reply: ReplyView) -> Turn {
    match state.phase {
        Phase::Setup => after_setup(config, state, reply),
        Phase::Teardown => after_teardown(config, state, reply),
        Phase::Finished => (state, Seq::empty()),
        Phase::Aborted => (state, Seq::empty()),
        Phase::Head => after_head(config, state),
        Phase::Begin => after_begin(config, state),
        Phase::Hold => (
            next_step(SessionView { prompt_shown: true, ..state }),
            Seq::empty(),
        ),
        Phase::TimedHold => (next_step(state), Seq::empty()),
        Phase::Question => after_question(config, state, reply),
        Phase::CommentTyping => (next_step(state), printed("\x1B[0m\n"@)),
        _ => match resolved(config).steps[state.idx] {
            StepView::Command(cmd) => after_command(config, state, cmd, reply),
            _ => (state, Seq::empty()),
        },
    }
}

/// The state in which a demo starts.
pub open spec fn opening(env: Map<Seq<char>, Seq<char>>) -> SessionView {
    SessionView {
        env,
        vars: Seq::empty(),
        idx: 0,
        chapter: 0,
        prompt_shown: false,
        phase: Phase::Setup,
    }
}

// ---------------------------------------------------------------------------
// Laws
// ---------------------------------------------------------------------------

/// A chapter of a demo starts at one of its steps, or behind the last one.
pub proof fn law_chapters_start_at_steps(config: ConfigView, i: int)
    requires
        0 <= i < resolved(config).chapters.len(),
    ensures
        0 <= resolved(config).chapters[i].start <= resolved(config).steps.len(),
{
    law_chapters_in_order(config.chapters, i, i);
}

/// A demo starts in a state that fits it.
pub proof fn law_opening_fits(config: ConfigView, env: Map<Seq<char>, Seq<char>>)
    ensures
        fits(config, opening(env)),
{
}

/// Whatever the replies, the state of a demo goes on to fit it: the current step exists for as
/// long as one is played.
pub proof fn law_state_goes_on_to_fit(config: ConfigView, state: SessionView, reply: ReplyView)
    requires
        fits(config, state),
    ensures
        fits(config, respond(config, state, reply).0),
{
    if state.phase == Phase::Choice {
        let chapters = resolved(config).chapters;
        let action = nav_of(chapters.len() > 0, keys_in(reply));
        match destination(chapters, state.idx, action) {
            Some(target) => {
                law_destination_exists(chapters, state.idx, action);
                law_chapters_start_at_steps(config, target);
            },
            None => {},
        }
    }
}

}
