//! A demo while it plays.

use crate::color::{expand_colors, expanded, style_to_ansi};
use crate::conditions::check_conditions;
use crate::config::{option_texts_view, texts_view, Config, ConfigView};
use crate::demo::{
    capture_ref_view, interactions_view, resolve_demo, resolved, CaptureRef, CommandRef, CommentRef,
    InteractionRef, ResolvedDemo, StepRef,
};
use crate::dry_run::{chapter_header, dry_run, preview};
use crate::highlight::highlight_command;
use crate::nav::{navigate, read_keys, NavAction};
use crate::play::{
    after_attended, after_begin, after_choice, after_command, after_command_begin, after_directive,
    after_head, after_hidden_run, after_housekeeping, after_question, after_running, after_setup,
    after_teardown, ask_text, ask_value, assigned, attended_in, auto_wait, coloured, command_action,
    command_job, command_typing, commands, comment_typing, fits, housekeeping, input_text,
    input_value, is_yes, keys_in, law_state_goes_on_to_fit, line_in, opening, outcome_in, printed,
    prompt_once, respond, running_action, wanted, with_captured, CLEAR_SCREEN, ERASE_LINE, Action,
    Job, Phase, Reply, RunMode, SessionView,
};
use crate::run::{
    capture_hidden, outputs_view, run_attended_command, run_command, run_hidden_command,
    take_snapshot, Attended, Outcome, Output, OutputView,
};
use crate::snapshot::shell_script_with_env_snapshot;
use crate::substitute::substitute_vars;
use crate::text::{chars_of, copy_option, join, option_view, same_text, trim};
use crate::timing::{own_or_global, resolve_text_delay, speed_to_delay};
use crate::typing::{tokens_view, type_text, type_text_highlighted, Typing};
use crate::vars::{bindings, distinct, initial_env, merge_env, pairs_view, put_all, Entries, Vars};
use crate::watch::Watch;
use vstd::prelude::*;

verus! {

broadcast use vstd::seq::group_seq_axioms;

/// Where a demo stands.
#[derive(Clone, Copy)]
struct Position {
    idx: usize,
    chapter: usize,
    prompt_shown: bool,
    phase: Phase,
}

/// A demo that is played: what is played, and how far it has come.
pub struct Session {
    config: Config,
    demo: ResolvedDemo,
    prompt: String,
    env: Vars,
    vars: Vars,
    at: Position,
}

/// What a demo is played from.
struct Stage<'a> {
    config: &'a Config,
    demo: &'a ResolvedDemo,
    prompt: &'a String,
}

impl<'a> Stage<'a> {
    spec fn ready(self) -> bool {
        &&& self.demo@ == resolved(self.config@)
        &&& self.prompt@ == expanded(self.config@.prompt)
    }
}

closed spec fn state_of(at: Position, env: Vars, vars: Vars) -> SessionView {
    SessionView {
        env: bindings(env@),
        vars: vars@,
        idx: at.idx as int,
        chapter: at.chapter as int,
        prompt_shown: at.prompt_shown,
        phase: at.phase,
    }
}

impl View for Session {
    type V = SessionView;

    closed spec fn view(&self) -> SessionView {
        state_of(self.at, self.env, self.vars)
    }
}

impl Session {
    /// The demo that is played.
    pub closed spec fn script(self) -> ConfigView {
        self.config@
    }

    /// The position exists in the demo.
    #[verifier::type_invariant]
    closed spec fn valid(self) -> bool {
        &&& self.demo@ == resolved(self.config@)
        &&& self.prompt@ == expanded(self.config@.prompt)
        &&& fits(self.config@, state_of(self.at, self.env, self.vars))
    }

    /// A demo before its start, in the environment of the process with that of the config laid
    /// over it.
    pub fn new(config: Config, process: Vec<(String, String)>) -> (session: Session)
        ensures
            session.script() == config@,
            session@ == opening(
                bindings(put_all(Entries::empty(), pairs_view(process@))).union_prefer_right(
                    config@.env,
                ),
            ),
            fits(session.script(), session@),
            distinct(session@.vars),
    {
        let demo = resolve_demo(&config);
        let prompt = expand_colors(config.prompt.as_str());
        let env = initial_env(process, &config.env);
        Session {
            config,
            demo,
            prompt,
            env,
            vars: Vars::new(),
            at: Position { idx: 0, chapter: 0, prompt_shown: false, phase: Phase::Setup },
        }
    }
}

// ---------------------------------------------------------------------------
// The next action
// ---------------------------------------------------------------------------

fn copy_interactions(list: &Vec<InteractionRef>) -> (copy: Vec<InteractionRef>)
    ensures
        interactions_view(copy@) == interactions_view(list@),
{
    let ghost all = interactions_view(list@);
    let mut copy: Vec<InteractionRef> = Vec::new();
    let mut i: usize = 0;
    while i < list.len()
        invariant
            i <= list@.len(),
            all == interactions_view(list@),
            interactions_view(copy@) == all.take(i as int),
        decreases list@.len() - i,
    {
        let ghost before = interactions_view(copy@);
        let item = InteractionRef {
            expect: copy_option(&list[i].expect),
            send: list[i].send.clone(),
        };
        assert(item@ == all[i as int]);
        copy.push(item);
        assert(interactions_view(copy@) =~= before.push(all[i as int]));
        assert(all.take(i + 1) =~= all.take(i as int).push(all[i as int]));
        i += 1;
    }
    assert(all.take(i as int) =~= all);
    copy
}

fn job_for(at: Position, env: &Vars, vars: &Vars, cmd: &CommandRef) -> (job: Job)
    ensures
        job@ == command_job(state_of(at, *env, *vars), cmd@),
{
    let text = substitute_vars(cmd.text.as_str(), vars);
    Job { script: shell_script_with_env_snapshot(text.as_str()), env: merge_env(env, &cmd.env) }
}

fn type_command(config: &Config, cmd: &CommandRef, text: &str) -> (typing: Typing)
    ensures
        typing@ == command_typing(config@, cmd@, text@),
{
    let delay: u64 = resolve_text_delay(cmd.speed, cmd.delay, config);
    let jitter: u64 = own_or_global(cmd.jitter, config.jitter);
    let pause: u64 = own_or_global(cmd.pause, config.pause);
    if config.highlight {
        let tokens = highlight_command(text);
        assert(tokens_view(tokens@) =~= coloured(text@));
        type_text_highlighted(&tokens, delay, jitter, pause)
    } else {
        type_text(text, delay, jitter, pause)
    }
}

fn type_comment(config: &Config, comment: &CommentRef) -> (typing: Typing)
    ensures
        typing@ == comment_typing(config@, comment@),
{
    type_text(
        comment.comment.as_str(),
        resolve_text_delay(comment.speed, comment.delay, config),
        own_or_global(comment.jitter, config.jitter),
        own_or_global(comment.pause, config.pause),
    )
}

fn advances_after(config: &Config, cmd: &CommandRef) -> (wait: Option<u64>)
    ensures
        wait == auto_wait(config@, cmd@),
{
    match cmd.wait {
        Some(ms) => Some(ms),
        None => config.auto_advance,
    }
}

fn next_housekeeping(list: &Option<Vec<String>>, at: Position, env: &Vars, vars: &Vars) -> (action:
    Action)
    ensures
        action@ == housekeeping(
            commands(option_texts_view(*list)),
            state_of(at, *env, *vars),
        ),
{
    if let Some(texts) = list {
        if at.idx < texts.len() {
            assert(texts_view(texts@)[at.idx as int] == texts@[at.idx as int]@);
            let script = shell_script_with_env_snapshot(texts[at.idx].as_str());
            return Action::Run(Job { script, env: env.copy() }, RunMode::Hidden);
        }
    }
    Action::Nothing
}

fn next_running(config: &Config, at: Position, env: &Vars, vars: &Vars, cmd: &CommandRef) -> (
    action: Action)
    ensures
        action@ == running_action(config@, state_of(at, *env, *vars), cmd@),
{
    if let Some(fake) = &cmd.fake_output {
        return match cmd.output_speed {
            Some(speed) => Action::Type(
                type_text(
                    fake.as_str(),
                    speed_to_delay(speed),
                    own_or_global(cmd.jitter, config.jitter),
                    0,
                ),
            ),
            None => Action::Nothing,
        };
    }
    if !cmd.execute {
        return Action::Nothing;
    }
    let job = job_for(at, env, vars, cmd);
    if let Some(pattern) = &cmd.wait_for {
        return match Watch::new(pattern.as_str(), cmd.timeout) {
            Ok(watch) => Action::Watch(job, watch),
            Err(_) => Action::Nothing,
        };
    }
    if let Some(script) = &cmd.interact {
        return Action::Converse(job, copy_interactions(script));
    }
    let mode = match cmd.capture {
        Some(_) => RunMode::VisibleCapture,
        None => RunMode::Visible,
    };
    Action::Run(job, mode)
}

fn next_for_command(config: &Config, at: Position, env: &Vars, vars: &Vars, cmd: &CommandRef) -> (
    action: Action)
    ensures
        action@ == command_action(config@, state_of(at, *env, *vars), cmd@),
{
    match at.phase {
        Phase::HiddenRun => {
            let mode = match cmd.capture {
                Some(_) => RunMode::HiddenCapture,
                None => RunMode::Hidden,
            };
            Action::Run(job_for(at, env, vars, cmd), mode)
        },
        Phase::BeforeHold => Action::AwaitEnter,
        Phase::CommandTyping => {
            let text = substitute_vars(cmd.text.as_str(), vars);
            Action::Type(type_command(config, cmd, text.as_str()))
        },
        Phase::Choice => Action::AwaitInput,
        Phase::Running => next_running(config, at, env, vars, cmd),
        Phase::QuietRun => Action::Run(job_for(at, env, vars, cmd), RunMode::Hidden),
        Phase::Settle => match advances_after(config, cmd) {
            Some(ms) => Action::Sleep(ms),
            None => Action::Nothing,
        },
        Phase::AfterHold => Action::AwaitKey,
        _ => Action::Nothing,
    }
}

impl Session {
    /// What is to be done next.
    pub fn next_action(&self) -> (action: Action)
        ensures
            action@ == wanted(self.script(), self@),
    {
        proof {
            use_type_invariant(self);
        }
        match self.at.phase {
            Phase::Setup => next_housekeeping(&self.config.setup, self.at, &self.env, &self.vars),
            Phase::Teardown => next_housekeeping(
                &self.config.teardown,
                self.at,
                &self.env,
                &self.vars,
            ),
            Phase::Finished => Action::Finish,
            Phase::Aborted => Action::Exit(1),
            Phase::Head => Action::Nothing,
            Phase::Begin => Action::Nothing,
            Phase::Hold => match self.config.auto_advance {
                Some(ms) => Action::Sleep(ms),
                None => Action::AwaitEnter,
            },
            Phase::Question => Action::AwaitLine,
            _ => {
                let ghost steps = resolved(self.config@).steps;
                assert(steps[self.at.idx as int] == self.demo.steps@[self.at.idx as int].step@);
                match &self.demo.steps[self.at.idx].step {
                    StepRef::TimedPause(ms) => Action::Sleep(*ms),
                    StepRef::Comment(comment) => Action::Type(
                        type_comment(&self.config, comment),
                    ),
                    StepRef::Command(cmd) => next_for_command(
                        &self.config,
                        self.at,
                        &self.env,
                        &self.vars,
                        cmd,
                    ),
                    _ => Action::Nothing,
                }
            },
        }
    }
}

// ---------------------------------------------------------------------------
// What follows from a reply
// ---------------------------------------------------------------------------

fn nothing() -> (outputs: Vec<Output>)
    ensures
        outputs_view(outputs@) == Seq::<OutputView>::empty(),
{
    let outputs: Vec<Output> = Vec::new();
    assert(outputs_view(outputs@) =~= Seq::<OutputView>::empty());
    outputs
}

fn one(output: Output) -> (outputs: Vec<Output>)
    ensures
        outputs_view(outputs@) == seq![output@],
{
    let mut outputs: Vec<Output> = Vec::new();
    outputs.push(output);
    assert(outputs_view(outputs@) =~= seq![output@]);
    outputs
}

fn show(text: &str) -> (outputs: Vec<Output>)
    ensures
        outputs_view(outputs@) == printed(text@),
{
    one(Output::Stdout(text.to_owned()))
}

impl Position {
    fn with_phase(self, phase: Phase) -> (at: Position)
        ensures
            at == (Position { phase, ..self }),
    {
        Position { idx: self.idx, chapter: self.chapter, prompt_shown: self.prompt_shown, phase }
    }

    fn next_step(self) -> (at: Position)
        requires
            self.idx < usize::MAX,
        ensures
            at == (Position { idx: (self.idx + 1) as usize, phase: Phase::Head, ..self }),
    {
        Position {
            idx: self.idx + 1,
            chapter: self.chapter,
            prompt_shown: self.prompt_shown,
            phase: Phase::Head,
        }
    }

    fn with_prompt(self, prompt_shown: bool) -> (at: Position)
        ensures
            at == (Position { prompt_shown, ..self }),
    {
        Position { idx: self.idx, chapter: self.chapter, prompt_shown, phase: self.phase }
    }
}

fn outcome_or_failure(reply: Reply) -> (outcome: Outcome)
    ensures
        outcome@ == outcome_in(reply@),
{
    match reply {
        Reply::Outcome(outcome) => outcome,
        _ => {
            let reason = String::new();
            assert(reason@ =~= Seq::empty());
            Outcome::Failed(reason)
        },
    }
}

/// Keeps a captured value, if there is one, in a variable and in the environment.
fn keep_captured(
    capture: &Option<CaptureRef>,
    value: Option<String>,
    env: &mut Vars,
    vars: &mut Vars,
    Ghost(at): Ghost<Position>,
)
    ensures
        state_of(at, *final(env), *final(vars)) == with_captured(
            state_of(at, *old(env), *old(vars)),
            capture_ref_view(*capture),
            option_view(value),
        ),
{
    if let Some(wanted) = capture {
        if let Some(text) = value {
            vars.insert(wanted.name.clone(), text.clone());
            env.insert(wanted.name.clone(), text);
        }
    }
}

fn proceed_housekeeping(
    list: &Option<Vec<String>>,
    at: Position,
    env: &mut Vars,
    vars: &Vars,
    reply: Reply,
) -> (result: (Position, Vec<Output>))
    requires
        at.idx < commands(option_texts_view(*list)).len(),
    ensures
        ({
            let turn = after_housekeeping(
                commands(option_texts_view(*list))[at.idx as int],
                state_of(at, *old(env), *vars),
                outcome_in(reply@),
            );
            &&& state_of(result.0, *final(env), *vars) == turn.0
            &&& outputs_view(result.1@) == turn.1
        }),
{
    match list {
        Some(texts) => {
            assert(texts_view(texts@)[at.idx as int] == texts@[at.idx as int]@);
            assert(at.idx < texts.len());
            let outcome = outcome_or_failure(reply);
            let outputs = run_hidden_command(texts[at.idx].as_str(), &outcome, env);
            let next = Position {
                idx: at.idx + 1,
                chapter: at.chapter,
                prompt_shown: at.prompt_shown,
                phase: at.phase,
            };
            (next, outputs)
        },
        None => (at, nothing()),
    }
}

fn count(list: &Option<Vec<String>>) -> (n: usize)
    ensures
        n == commands(option_texts_view(*list)).len(),
{
    match list {
        Some(texts) => texts.len(),
        None => 0,
    }
}

fn proceed_setup(
    stage: &Stage,
    at: Position,
    env: &mut Vars,
    vars: &Vars,
    reply: Reply,
) -> (result: (Position, Vec<Output>))
    ensures
        ({
            let turn = after_setup(stage.config@, state_of(at, *old(env), *vars), reply@);
            &&& state_of(result.0, *final(env), *vars) == turn.0
            &&& outputs_view(result.1@) == turn.1
        }),
{
    if at.idx < count(&stage.config.setup) {
        return proceed_housekeeping(&stage.config.setup, at, env, vars, reply);
    }
    let next = Position {
        idx: 0,
        chapter: at.chapter,
        prompt_shown: at.prompt_shown,
        phase: Phase::Head,
    };
    if stage.config.clear {
        (next, show(CLEAR_SCREEN))
    } else {
        (next, nothing())
    }
}

fn proceed_teardown(
    stage: &Stage,
    at: Position,
    env: &mut Vars,
    vars: &Vars,
    reply: Reply,
) -> (result: (Position, Vec<Output>))
    ensures
        ({
            let turn = after_teardown(stage.config@, state_of(at, *old(env), *vars), reply@);
            &&& state_of(result.0, *final(env), *vars) == turn.0
            &&& outputs_view(result.1@) == turn.1
        }),
{
    if at.idx < count(&stage.config.teardown) {
        return proceed_housekeeping(&stage.config.teardown, at, env, vars, reply);
    }
    (at.with_phase(Phase::Finished), nothing())
}

fn proceed_head(stage: &Stage, at: Position, env: &Vars, vars: &Vars) -> (result: (
    Position,
    Vec<Output>,
))
    requires
        stage.ready(),
    ensures
        ({
            let turn = after_head(stage.config@, state_of(at, *env, *vars));
            &&& state_of(result.0, *env, *vars) == turn.0
            &&& outputs_view(result.1@) == turn.1
        }),
{
    let chapters = &stage.demo.chapters;
    if at.idx < stage.demo.steps.len() {
        assert(at.chapter < chapters@.len() ==> resolved(stage.config@).chapters[at.chapter as int]
            == chapters@[at.chapter as int]@);
        if at.chapter < chapters.len() && chapters[at.chapter].start == at.idx {
            let header = chapter_header(chapters[at.chapter].name.as_str());
            let next = Position {
                idx: at.idx,
                chapter: at.chapter + 1,
                prompt_shown: at.prompt_shown,
                phase: Phase::Begin,
            };
            (next, show(header.as_str()))
        } else {
            (at.with_phase(Phase::Begin), nothing())
        }
    } else {
        let next = Position {
            idx: 0,
            chapter: at.chapter,
            prompt_shown: at.prompt_shown,
            phase: Phase::Teardown,
        };
        (next, nothing())
    }
}

fn show_prompt_once(stage: &Stage, at: Position, env: &Vars, vars: &Vars) -> (outputs: Vec<Output>)
    requires
        stage.ready(),
    ensures
        outputs_view(outputs@) == prompt_once(stage.config@, state_of(at, *env, *vars)),
{
    if at.prompt_shown {
        nothing()
    } else {
        show(stage.prompt.as_str())
    }
}

fn proceed_directive(
    stage: &Stage,
    at: Position,
    env: &Vars,
    vars: &Vars,
    directive: &String,
) -> (result: (Position, Vec<Output>))
    requires
        stage.ready(),
        at.idx < usize::MAX,
    ensures
        ({
            let turn = after_directive(stage.config@, state_of(at, *env, *vars), directive@);
            &&& state_of(result.0, *env, *vars) == turn.0
            &&& outputs_view(result.1@) == turn.1
        }),
{
    if same_text(directive.as_str(), "pause") {
        (at.with_phase(Phase::Hold), show(stage.prompt.as_str()))
    } else if same_text(directive.as_str(), "clear") {
        (at.with_prompt(false).next_step(), show(CLEAR_SCREEN))
    } else {
        let mut text = join("[demonator] unknown directive: ", directive.as_str());
        text.append("\n");
        (at.with_phase(Phase::Aborted), one(Output::Stderr(text)))
    }
}

fn proceed_command_begin(
    stage: &Stage,
    at: Position,
    env: &Vars,
    vars: &Vars,
    cmd: &CommandRef,
) -> (result: (Position, Vec<Output>))
    requires
        stage.ready(),
        at.idx < usize::MAX,
    ensures
        ({
            let turn = after_command_begin(stage.config@, state_of(at, *env, *vars), cmd@);
            &&& state_of(result.0, *env, *vars) == turn.0
            &&& outputs_view(result.1@) == turn.1
        }),
{
    if !check_conditions(&cmd.if_condition, &cmd.unless, vars) {
        return (at.next_step(), nothing());
    }
    if cmd.hidden {
        return (at.with_phase(Phase::HiddenRun), nothing());
    }
    let outputs = show_prompt_once(stage, at, env, vars);
    let phase = if cmd.wait_before {
        Phase::BeforeHold
    } else {
        Phase::CommandTyping
    };
    (at.with_prompt(false).with_phase(phase), outputs)
}

fn ask_prompt(message: &str) -> (text: String)
    ensures
        text@ == ask_text(message@),
{
    let mut text = join("\x1B[33m?\x1B[0m ", message);
    text.append(" \x1B[2m[y/N]\x1B[0m ");
    text
}

fn input_prompt(message: &str, default: &Option<String>) -> (text: String)
    ensures
        text@ == input_text(message@, option_view(*default)),
{
    let mut text = join("\x1B[33m?\x1B[0m ", message);
    text.append(" \x1B[2m[");
    text.append(
        match default {
            Some(value) => value.as_str(),
            None => "enter",
        },
    );
    text.append("]\x1B[0m ");
    text
}

fn proceed_begin(stage: &Stage, at: Position, env: &Vars, vars: &Vars) -> (result: (
    Position,
    Vec<Output>,
))
    requires
        stage.ready(),
        at.idx < stage.demo.steps@.len(),
    ensures
        ({
            let turn = after_begin(stage.config@, state_of(at, *env, *vars));
            &&& state_of(result.0, *env, *vars) == turn.0
            &&& outputs_view(result.1@) == turn.1
        }),
{
    assert(resolved(stage.config@).steps[at.idx as int] == stage.demo.steps@[at.idx as int].step@);
    assert(at.idx < stage.demo.steps.len());
    match &stage.demo.steps[at.idx].step {
        StepRef::Directive(directive) => proceed_directive(stage, at, env, vars, directive),
        StepRef::TimedPause(_) => {
            let outputs = show_prompt_once(stage, at, env, vars);
            (at.with_prompt(true).with_phase(Phase::TimedHold), outputs)
        },
        StepRef::Ask(message, _) => {
            let text = ask_prompt(message.as_str());
            (at.with_phase(Phase::Question), show(text.as_str()))
        },
        StepRef::Input(message, _, default) => {
            let text = input_prompt(message.as_str(), default);
            (at.with_phase(Phase::Question), show(text.as_str()))
        },
        StepRef::Comment(comment) => {
            let mut outputs = show_prompt_once(stage, at, env, vars);
            let ghost before = outputs@;
            let style = match &comment.style {
                Some(style) => style_to_ansi(Some(style.as_str())),
                None => style_to_ansi(None),
            };
            let output = Output::Stdout(style.to_owned());
            outputs.push(output);
            assert(outputs_view(outputs@) =~= outputs_view(before) + printed(style@));
            (at.with_prompt(false).with_phase(Phase::CommentTyping), outputs)
        },
        StepRef::Command(cmd) => proceed_command_begin(stage, at, env, vars, cmd),
    }
}

/// Whether an answer is `y` or `yes`, in letters of either case.
pub fn says_yes(answer: &str) -> (result: bool)
    ensures
        result == is_yes(answer@),
{
    let chars = chars_of(answer);
    if chars.len() == 1 {
        chars[0] == 'y' || chars[0] == 'Y'
    } else if chars.len() == 3 {
        (chars[0] == 'y' || chars[0] == 'Y') && (chars[1] == 'e' || chars[1] == 'E') && (chars[2]
            == 's' || chars[2] == 'S')
    } else {
        false
    }
}

fn answer_to_ask(line: &str) -> (value: Option<String>)
    ensures
        option_view(value) == ask_value(line@),
{
    if says_yes(trim(line).as_str()) {
        Some("y".to_owned())
    } else {
        None
    }
}

fn answer_to_input(line: &str, default: &Option<String>) -> (value: Option<String>)
    ensures
        option_view(value) == input_value(line@, option_view(*default)),
{
    let answer = trim(line);
    if chars_of(answer.as_str()).len() == 0 {
        copy_option(default)
    } else {
        Some(answer)
    }
}

fn assign(vars: &mut Vars, name: &String, value: Option<String>)
    ensures
        final(vars)@ == assigned(old(vars)@, name@, option_view(value)),
{
    match value {
        Some(text) => {
            vars.insert(name.clone(), text);
        },
        None => {
            vars.remove(name.as_str());
        },
    }
}

fn proceed_question(
    stage: &Stage,
    at: Position,
    env: &Vars,
    vars: &mut Vars,
    reply: Reply,
) -> (result: (Position, Vec<Output>))
    requires
        stage.ready(),
        at.idx < stage.demo.steps@.len(),
    ensures
        ({
            let turn = after_question(stage.config@, state_of(at, *env, *old(vars)), reply@);
            &&& state_of(result.0, *env, *final(vars)) == turn.0
            &&& outputs_view(result.1@) == turn.1
        }),
{
    assert(resolved(stage.config@).steps[at.idx as int] == stage.demo.steps@[at.idx as int].step@);
    assert(at.idx < stage.demo.steps.len());
    let ghost line_view = line_in(reply@);
    let line = match reply {
        Reply::Line(line) => line,
        _ => {
            let line = String::new();
            assert(line@ =~= Seq::empty());
            line
        },
    };
    assert(line@ == line_view);
    match &stage.demo.steps[at.idx].step {
        StepRef::Ask(_, name) => {
            assign(vars, name, answer_to_ask(line.as_str()));
        },
        StepRef::Input(_, name, default) => {
            assign(vars, name, answer_to_input(line.as_str(), default));
        },
        _ => {},
    }
    (at.next_step(), nothing())
}

fn proceed_hidden_run(
    at: Position,
    env: &mut Vars,
    vars: &mut Vars,
    cmd: &CommandRef,
    outcome: &Outcome,
) -> (result: (Position, Vec<Output>))
    requires
        at.idx < usize::MAX,
    ensures
        ({
            let turn = after_hidden_run(state_of(at, *old(env), *old(vars)), cmd@, outcome@);
            &&& state_of(result.0, *final(env), *final(vars)) == turn.0
            &&& outputs_view(result.1@) == turn.1
        }),
{
    let mut value: Option<String> = None;
    if let Outcome::Ran(ran) = outcome {
        take_snapshot(env, &cmd.env, &ran.snapshot);
        if let Some(capture) = &cmd.capture {
            value = capture_hidden(capture, &ran.stdout);
        }
    }
    keep_captured(&cmd.capture, value, env, vars, Ghost(at));
    (at.next_step(), nothing())
}

fn proceed_choice(
    stage: &Stage,
    at: Position,
    env: &Vars,
    vars: &Vars,
    reply: Reply,
) -> (result: (Position, Vec<Output>))
    requires
        stage.ready(),
    ensures
        ({
            let turn = after_choice(stage.config@, state_of(at, *env, *vars), reply@);
            &&& state_of(result.0, *env, *vars) == turn.0
            &&& outputs_view(result.1@) == turn.1
        }),
{
    let ghost keys_view = keys_in(reply@);
    let keys = match reply {
        Reply::Keys(keys) => keys,
        _ => {
            let keys: Vec<u8> = Vec::new();
            assert(keys@ =~= Seq::empty());
            keys
        },
    };
    assert(keys@ == keys_view);
    let chapters = &stage.demo.chapters;
    let action = read_keys(chapters.len() > 0, &keys);
    match navigate(chapters, at.idx, action) {
        Some(target) => {
            assert(resolved(stage.config@).chapters[target as int] == chapters@[target as int]@);
            let next = Position {
                idx: chapters[target].start,
                chapter: target,
                prompt_shown: at.prompt_shown,
                phase: Phase::Head,
            };
            (next, nothing())
        },
        None => {
            let outputs = if action == NavAction::Continue {
                show("\n")
            } else {
                nothing()
            };
            (at.with_phase(Phase::Running), outputs)
        },
    }
}

fn attended_or_failure(cmd: &CommandRef, reply: Reply) -> (attended: Attended)
    ensures
        attended@ == attended_in(cmd@, reply@),
{
    if let Some(pattern) = &cmd.wait_for {
        if let Err(refused) = Watch::new(pattern.as_str(), cmd.timeout) {
            return refused;
        }
    }
    match reply {
        Reply::Attended(attended) => attended,
        _ => {
            let reason = String::new();
            assert(reason@ =~= Seq::empty());
            Attended::Failed(reason)
        },
    }
}

fn proceed_attended(
    at: Position,
    env: &mut Vars,
    vars: &Vars,
    cmd: &CommandRef,
    attended: &Attended,
) -> (result: (Position, Vec<Output>))
    ensures
        ({
            let turn = after_attended(state_of(at, *old(env), *vars), cmd@, attended@);
            &&& state_of(result.0, *final(env), *vars) == turn.0
            &&& outputs_view(result.1@) == turn.1
        }),
{
    let (_code, outputs) = run_attended_command(attended, env, &cmd.env);
    (at.with_phase(Phase::Settle), outputs)
}

fn proceed_running(
    stage: &Stage,
    at: Position,
    env: &mut Vars,
    vars: &mut Vars,
    cmd: &CommandRef,
    reply: Reply,
) -> (result: (Position, Vec<Output>))
    ensures
        ({
            let turn = after_running(
                stage.config@,
                state_of(at, *old(env), *old(vars)),
                cmd@,
                reply@,
            );
            &&& state_of(result.0, *final(env), *final(vars)) == turn.0
            &&& outputs_view(result.1@) == turn.1
        }),
{
    if let Some(fake) = &cmd.fake_output {
        let phase = if cmd.execute {
            Phase::QuietRun
        } else {
            Phase::Settle
        };
        let outputs = match cmd.output_speed {
            Some(_) => show("\n"),
            None => show(fake.as_str()),
        };
        return (at.with_phase(phase), outputs);
    }
    if !cmd.execute {
        return (at.with_phase(Phase::Settle), nothing());
    }
    if cmd.wait_for.is_some() || cmd.interact.is_some() {
        let attended = attended_or_failure(cmd, reply);
        return proceed_attended(at, env, vars, cmd, &attended);
    }
    let outcome = outcome_or_failure(reply);
    let report = run_command(&outcome, &cmd.capture, env, &cmd.env, stage.config.show_exit_status);
    let next = at.with_phase(Phase::Settle);
    keep_captured(&cmd.capture, report.captured, env, vars, Ghost(next));
    (next, report.outputs)
}

fn proceed_command(
    stage: &Stage,
    at: Position,
    env: &mut Vars,
    vars: &mut Vars,
    cmd: &CommandRef,
    reply: Reply,
) -> (result: (Position, Vec<Output>))
    requires
        stage.ready(),
        at.idx < usize::MAX,
    ensures
        ({
            let turn = after_command(
                stage.config@,
                state_of(at, *old(env), *old(vars)),
                cmd@,
                reply@,
            );
            &&& state_of(result.0, *final(env), *final(vars)) == turn.0
            &&& outputs_view(result.1@) == turn.1
        }),
{
    match at.phase {
        Phase::HiddenRun => {
            let outcome = outcome_or_failure(reply);
            proceed_hidden_run(at, env, vars, cmd, &outcome)
        },
        Phase::BeforeHold => (at.with_phase(Phase::CommandTyping), nothing()),
        Phase::CommandTyping => match advances_after(stage.config, cmd) {
            Some(_) => (at.with_phase(Phase::Running), show("\n")),
            None => (at.with_phase(Phase::Choice), nothing()),
        },
        Phase::Choice => proceed_choice(stage, at, env, vars, reply),
        Phase::Running => proceed_running(stage, at, env, vars, cmd, reply),
        Phase::QuietRun => {
            if let Outcome::Ran(ran) = outcome_or_failure(reply) {
                take_snapshot(env, &cmd.env, &ran.snapshot);
            }
            (at.with_phase(Phase::Settle), nothing())
        },
        Phase::Settle => if cmd.wait_after {
            (at.with_phase(Phase::AfterHold), show(stage.prompt.as_str()))
        } else {
            (at.next_step(), nothing())
        },
        Phase::AfterHold => (at.next_step(), show(ERASE_LINE)),
        _ => (at, nothing()),
    }
}

fn proceed(stage: &Stage, at: Position, env: &mut Vars, vars: &mut Vars, reply: Reply) -> (result: (
    Position,
    Vec<Output>,
))
    requires
        stage.ready(),
        fits(stage.config@, state_of(at, *old(env), *old(vars))),
    ensures
        ({
            let turn = respond(stage.config@, state_of(at, *old(env), *old(vars)), reply@);
            &&& state_of(result.0, *final(env), *final(vars)) == turn.0
            &&& outputs_view(result.1@) == turn.1
        }),
{
    assert(resolved(stage.config@).steps.len() == stage.demo.steps.len());
    match at.phase {
        Phase::Setup => proceed_setup(stage, at, env, vars, reply),
        Phase::Teardown => proceed_teardown(stage, at, env, vars, reply),
        Phase::Finished => (at, nothing()),
        Phase::Aborted => (at, nothing()),
        Phase::Head => proceed_head(stage, at, env, vars),
        Phase::Begin => proceed_begin(stage, at, env, vars),
        Phase::Hold => (at.with_prompt(true).next_step(), nothing()),
        Phase::TimedHold => (at.next_step(), nothing()),
        Phase::Question => proceed_question(stage, at, env, vars, reply),
        Phase::CommentTyping => (at.next_step(), show("\x1B[0m\n")),
        _ => {
            assert(resolved(stage.config@).steps[at.idx as int]
                == stage.demo.steps@[at.idx as int].step@);
            match &stage.demo.steps[at.idx].step {
                StepRef::Command(cmd) => proceed_command(stage, at, env, vars, cmd, reply),
                _ => (at, nothing()),
            }
        },
    }
}

impl Session {
    /// Takes in how the last action went, and gives what is to be printed before the next one.
    pub fn resume(&mut self, reply: Reply) -> (outputs: Vec<Output>)
        ensures
            final(self).script() == old(self).script(),
            final(self)@ == respond(old(self).script(), old(self)@, reply@).0,
            outputs_view(outputs@) == respond(old(self).script(), old(self)@, reply@).1,
            fits(final(self).script(), final(self)@),
            distinct(final(self)@.vars),
    {
        proof {
            use_type_invariant(&*self);
            law_state_goes_on_to_fit(self.config@, self@, reply@);
        }
        let mut env = Vars::new();
        let mut vars = Vars::new();
        std::mem::swap(&mut env, &mut self.env);
        std::mem::swap(&mut vars, &mut self.vars);
        let stage = Stage { config: &self.config, demo: &self.demo, prompt: &self.prompt };
        let (at, outputs) = proceed(&stage, self.at, &mut env, &mut vars, reply);
        proof {
            use_type_invariant(&vars);
        }
        self.at = at;
        self.env = env;
        self.vars = vars;
        outputs
    }
}


/// What a config is turned into.
pub enum Start {
    /// A preview to print.
    Preview(String),
    /// A demo to play.
    Play(Session),
}

/// Turns a config into a preview where only that is asked for, and into a demo before its start
/// otherwise. Nothing of the demo is run for a preview.
pub fn run_demo(config: Config, process: Vec<(String, String)>, preview_only: bool) -> (start:
    Start)
    ensures
        match start {
            Start::Preview(text) => preview_only && text@ == preview(config@),
            Start::Play(session) => {
                &&& !preview_only
                &&& session.script() == config@
                &&& session@ == opening(
                    bindings(put_all(Entries::empty(), pairs_view(process@))).union_prefer_right(
                        config@.env,
                    ),
                )
            },
        },
{
    if preview_only {
        Start::Preview(dry_run(&config))
    } else {
        Start::Play(Session::new(config, process))
    }
}

}
