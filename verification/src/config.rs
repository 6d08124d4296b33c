//! What a demo consists of: its settings and its steps.

use crate::text::option_view;
use crate::vars::{bindings, Vars};
use vstd::prelude::*;

verus! {

broadcast use vstd::seq::group_seq_axioms;

// ---------------------------------------------------------------------------
// Types
// ---------------------------------------------------------------------------

/// A demo with its settings. It has either steps or chapters of steps.
pub struct Config {
    pub prompt: String,
    pub clear: bool,
    pub speed: Option<u64>,
    pub delay: u64,
    pub jitter: u64,
    pub pause: u64,
    pub highlight: bool,
    pub auto_advance: Option<u64>,
    pub setup: Option<Vec<String>>,
    pub teardown: Option<Vec<String>>,
    pub env: Vars,
    pub steps: Vec<Step>,
    pub chapters: Vec<Chapter>,
    pub show_exit_status: bool,
}

/// A named part of a demo.
pub struct Chapter {
    pub name: String,
    pub steps: Vec<Step>,
}

/// A step of a demo.
pub enum Step {
    Directive(String),
    Ask(AskStep),
    Input(InputStep),
    Command(CommandStep),
    Comment(CommentStep),
    TimedPause(TimedPauseStep),
}

/// A yes-or-no question whose answer decides whether a variable is set.
pub struct AskStep {
    pub ask: String,
    pub capture: String,
}

/// A question whose answer becomes the value of a variable.
pub struct InputStep {
    pub input: String,
    pub capture: String,
    pub default: Option<String>,
}

/// A pause at the prompt, in milliseconds.
pub struct TimedPauseStep {
    pub pause: u64,
}

/// Narration that is typed at the prompt and not run.
pub struct CommentStep {
    pub comment: String,
    pub style: Option<String>,
    pub speed: Option<u64>,
    pub delay: Option<u64>,
    pub jitter: Option<u64>,
    pub pause: Option<u64>,
}

/// A command that is typed and run.
pub struct CommandStep {
    pub text: String,
    pub speed: Option<u64>,
    pub delay: Option<u64>,
    pub jitter: Option<u64>,
    pub pause: Option<u64>,
    pub capture: Option<Capture>,
    pub fake_output: Option<String>,
    pub output_speed: Option<u64>,
    pub execute: bool,
    pub wait_for: Option<String>,
    pub timeout: u64,
    pub wait: Option<u64>,
    pub interact: Option<Vec<Interaction>>,
    pub if_condition: Option<String>,
    pub unless: Option<String>,
    pub wait_before: bool,
    pub wait_after: bool,
    pub env: Vars,
    pub hidden: bool,
}

/// What part of a command's output becomes the value of a variable.
pub struct Capture {
    pub name: String,
    pub pattern: Option<String>,
    pub json_path: Option<String>,
}

/// A line to send to a running command, once it has printed what is expected.
pub struct Interaction {
    pub expect: Option<String>,
    pub send: String,
}

// ---------------------------------------------------------------------------
// Views
// ---------------------------------------------------------------------------

/// The contents of a [`Capture`].
pub struct CaptureView {
    pub name: Seq<char>,
    pub pattern: Option<Seq<char>>,
    pub json_path: Option<Seq<char>>,
}

/// The contents of an [`Interaction`].
pub struct InteractionView {
    pub expect: Option<Seq<char>>,
    pub send: Seq<char>,
}

/// The contents of a [`CommentStep`].
pub struct CommentView {
    pub comment: Seq<char>,
    pub style: Option<Seq<char>>,
    pub speed: Option<u64>,
    pub delay: Option<u64>,
    pub jitter: Option<u64>,
    pub pause: Option<u64>,
}

/// The contents of a [`CommandStep`].
#[verifier::ext_equal]
pub struct CommandView {
    pub text: Seq<char>,
    pub speed: Option<u64>,
    pub delay: Option<u64>,
    pub jitter: Option<u64>,
    pub pause: Option<u64>,
    pub capture: Option<CaptureView>,
    pub fake_output: Option<Seq<char>>,
    pub output_speed: Option<u64>,
    pub execute: bool,
    pub wait_for: Option<Seq<char>>,
    pub timeout: u64,
    pub wait: Option<u64>,
    pub interact: Option<Seq<InteractionView>>,
    pub if_condition: Option<Seq<char>>,
    pub unless: Option<Seq<char>>,
    pub wait_before: bool,
    pub wait_after: bool,
    pub env: Map<Seq<char>, Seq<char>>,
    pub hidden: bool,
}

/// The contents of a [`Step`].
pub enum StepView {
    Directive(Seq<char>),
    TimedPause(u64),
    Comment(CommentView),
    Ask(Seq<char>, Seq<char>),
    Input(Seq<char>, Seq<char>, Option<Seq<char>>),
    Command(CommandView),
}

/// The contents of a [`Chapter`].
pub struct ChapterView {
    pub name: Seq<char>,
    pub steps: Seq<StepView>,
}

/// The contents of a [`Config`].
pub struct ConfigView {
    pub prompt: Seq<char>,
    pub clear: bool,
    pub speed: Option<u64>,
    pub delay: u64,
    pub jitter: u64,
    pub pause: u64,
    pub highlight: bool,
    pub auto_advance: Option<u64>,
    pub setup: Option<Seq<Seq<char>>>,
    pub teardown: Option<Seq<Seq<char>>>,
    pub env: Map<Seq<char>, Seq<char>>,
    pub steps: Seq<StepView>,
    pub chapters: Seq<ChapterView>,
    pub show_exit_status: bool,
}

/// The characters of each text.
pub open spec fn texts_view(texts: Seq<String>) -> Seq<Seq<char>> {
    texts.map_values(|text: String| text@)
}

/// The characters of each text of an optional list.
pub open spec fn option_texts_view(texts: Option<Vec<String>>) -> Option<Seq<Seq<char>>> {
    match texts {
        Some(list) => Some(texts_view(list@)),
        None => None,
    }
}

impl View for Capture {
    type V = CaptureView;

    open spec fn view(&self) -> CaptureView {
        CaptureView {
            name: self.name@,
            pattern: option_view(self.pattern),
            json_path: option_view(self.json_path),
        }
    }
}

impl View for Interaction {
    type V = InteractionView;

    open spec fn view(&self) -> InteractionView {
        InteractionView { expect: option_view(self.expect), send: self.send@ }
    }
}

impl View for CommentStep {
    type V = CommentView;

    open spec fn view(&self) -> CommentView {
        CommentView {
            comment: self.comment@,
            style: option_view(self.style),
            speed: self.speed,
            delay: self.delay,
            jitter: self.jitter,
            pause: self.pause,
        }
    }
}

/// The contents of an optional [`Capture`].
pub open spec fn capture_view(capture: Option<Capture>) -> Option<CaptureView> {
    match capture {
        Some(c) => Some(c@),
        None => None,
    }
}

/// The contents of an optional list of [`Interaction`]s.
pub open spec fn interact_view(list: Option<Vec<Interaction>>) -> Option<Seq<InteractionView>> {
    match list {
        Some(v) => Some(v@.map_values(|i: Interaction| i@)),
        None => None,
    }
}

impl View for CommandStep {
    type V = CommandView;

    open spec fn view(&self) -> CommandView {
        CommandView {
            text: self.text@,
            speed: self.speed,
            delay: self.delay,
            jitter: self.jitter,
            pause: self.pause,
            capture: capture_view(self.capture),
            fake_output: option_view(self.fake_output),
            output_speed: self.output_speed,
            execute: self.execute,
            wait_for: option_view(self.wait_for),
            timeout: self.timeout,
            wait: self.wait,
            interact: interact_view(self.interact),
            if_condition: option_view(self.if_condition),
            unless: option_view(self.unless),
            wait_before: self.wait_before,
            wait_after: self.wait_after,
            env: bindings(self.env@),
            hidden: self.hidden,
        }
    }
}

impl View for Step {
    type V = StepView;

    open spec fn view(&self) -> StepView {
        match *self {
            Step::Directive(d) => StepView::Directive(d@),
            Step::Ask(a) => StepView::Ask(a.ask@, a.capture@),
            Step::Input(i) => StepView::Input(i.input@, i.capture@, option_view(i.default)),
            Step::Command(c) => StepView::Command(c@),
            Step::Comment(c) => StepView::Comment(c@),
            Step::TimedPause(p) => StepView::TimedPause(p.pause),
        }
    }
}

/// The contents of a list of steps.
pub open spec fn steps_view(steps: Seq<Step>) -> Seq<StepView> {
    steps.map_values(|step: Step| step@)
}

impl View for Chapter {
    type V = ChapterView;

    open spec fn view(&self) -> ChapterView {
        ChapterView { name: self.name@, steps: steps_view(self.steps@) }
    }
}

impl View for Config {
    type V = ConfigView;

    open spec fn view(&self) -> ConfigView {
        ConfigView {
            prompt: self.prompt@,
            clear: self.clear,
            speed: self.speed,
            delay: self.delay,
            jitter: self.jitter,
            pause: self.pause,
            highlight: self.highlight,
            auto_advance: self.auto_advance,
            setup: option_texts_view(self.setup),
            teardown: option_texts_view(self.teardown),
            env: bindings(self.env@),
            steps: steps_view(self.steps@),
            chapters: self.chapters@.map_values(|chapter: Chapter| chapter@),
            show_exit_status: self.show_exit_status,
        }
    }
}

// ---------------------------------------------------------------------------
// Defaults
// ---------------------------------------------------------------------------

/// Settings that are on unless they are switched off.
pub fn default_true() -> (value: bool)
    ensures
        value == true,
{
    true
}

/// How long to wait for a pattern, in seconds.
pub fn default_timeout() -> (seconds: u64)
    ensures
        seconds == 30,
{
    30
}

/// The prompt of a demo that sets none.
pub fn default_prompt() -> (prompt: String)
    ensures
        prompt@ == "{green}~{reset} {blue}${reset} "@,
{
    "{green}~{reset} {blue}${reset} ".to_owned()
}

/// The delay between characters, in milliseconds.
pub fn default_delay() -> (ms: u64)
    ensures
        ms == 50,
{
    50
}

/// How far delays vary, in per cent.
pub fn default_jitter() -> (percent: u64)
    ensures
        percent == 0,
{
    0
}

/// The extra delay at punctuation, in milliseconds.
pub fn default_pause() -> (ms: u64)
    ensures
        ms == 200,
{
    200
}

// ---------------------------------------------------------------------------
// Checks
// ---------------------------------------------------------------------------

/// Why a config cannot be played.
#[derive(Clone, Copy, PartialEq, Eq, Structural, Debug)]
pub enum ConfigError {
    /// It has neither steps nor chapters.
    NothingToPlay,
    /// It has both steps and chapters.
    StepsAndChapters,
}

impl ConfigError {
    /// The error in words.
    pub fn message(self) -> (message: &'static str)
        ensures
            message@ == (match self {
                ConfigError::NothingToPlay =>
                    "Error: config must have either 'steps' or 'chapters'"@,
                ConfigError::StepsAndChapters =>
                    "Error: config cannot have both 'steps' and 'chapters'"@,
            }),
    {
        match self {
            ConfigError::NothingToPlay => "Error: config must have either 'steps' or 'chapters'",
            ConfigError::StepsAndChapters => "Error: config cannot have both 'steps' and 'chapters'",
        }
    }
}

/// Checks that a config has steps or chapters, and not both.
pub fn check_config(config: &Config) -> (result: Result<(), ConfigError>)
    ensures
        result == (if config@.steps.len() == 0 && config@.chapters.len() == 0 {
            Err(ConfigError::NothingToPlay)
        } else if config@.steps.len() > 0 && config@.chapters.len() > 0 {
            Err(ConfigError::StepsAndChapters)
        } else {
            Ok(())
        }),
{
    let no_steps = config.steps.len() == 0;
    let no_chapters = config.chapters.len() == 0;
    if no_steps && no_chapters {
        Err(ConfigError::NothingToPlay)
    } else if !no_steps && !no_chapters {
        Err(ConfigError::StepsAndChapters)
    } else {
        Ok(())
    }
}

}
