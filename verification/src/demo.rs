//! The steps of a demo in one row, with the places where its chapters start.

use crate::config::{
    capture_view, interact_view, steps_view, Capture, CaptureView, ChapterView, CommandStep,
    CommandView, CommentView, Config, ConfigView, Interaction, InteractionView, Step, StepView,
};
use crate::text::{copy_option, option_view};
use crate::vars::{bindings, Vars};
use vstd::prelude::*;

verus! {

broadcast use vstd::seq::group_seq_axioms;

/// Where a chapter starts.
pub struct ChapterMarker {
    pub name: String,
    pub start: usize,
}

/// A demo in the order in which it is played.
pub struct ResolvedDemo {
    pub steps: Vec<ResolvedStep>,
    pub chapters: Vec<ChapterMarker>,
}

/// A step of a demo.
pub struct ResolvedStep {
    pub step: StepRef,
}

/// What a step does.
pub enum StepRef {
    Directive(String),
    TimedPause(u64),
    Comment(CommentRef),
    /// The message and the variable.
    Ask(String, String),
    /// The message, the variable and the default.
    Input(String, String, Option<String>),
    Command(CommandRef),
}

/// Narration that is typed at the prompt and not run.
pub struct CommentRef {
    pub comment: String,
    pub style: Option<String>,
    pub speed: Option<u64>,
    pub delay: Option<u64>,
    pub jitter: Option<u64>,
    pub pause: Option<u64>,
}

/// A command that is typed and run.
pub struct CommandRef {
    pub text: String,
    pub speed: Option<u64>,
    pub delay: Option<u64>,
    pub jitter: Option<u64>,
    pub pause: Option<u64>,
    pub capture: Option<CaptureRef>,
    pub fake_output: Option<String>,
    pub output_speed: Option<u64>,
    pub execute: bool,
    pub wait_for: Option<String>,
    pub timeout: u64,
    pub wait: Option<u64>,
    pub interact: Option<Vec<InteractionRef>>,
    pub if_condition: Option<String>,
    pub unless: Option<String>,
    pub wait_before: bool,
    pub wait_after: bool,
    pub env: Vars,
    pub hidden: bool,
}

/// What part of a command's output becomes the value of a variable.
pub struct CaptureRef {
    pub name: String,
    pub pattern: Option<String>,
    pub json_path: Option<String>,
}

/// A line to send to a running command, once it has printed what is expected.
pub struct InteractionRef {
    pub expect: Option<String>,
    pub send: String,
}

// ---------------------------------------------------------------------------
// Views
// ---------------------------------------------------------------------------

/// The contents of a [`ChapterMarker`].
pub struct MarkerView {
    pub name: Seq<char>,
    pub start: int,
}

/// The contents of a [`ResolvedDemo`].
#[verifier::ext_equal]
pub struct DemoView {
    pub steps: Seq<StepView>,
    pub chapters: Seq<MarkerView>,
}

impl View for ChapterMarker {
    type V = MarkerView;

    open spec fn view(&self) -> MarkerView {
        MarkerView { name: self.name@, start: self.start as int }
    }
}

impl View for CommentRef {
    type V = CommentView;

    open spec fn view(&self) -> CommentView {
        CommentView {
            comment: self.comment@,
            style: option_view(self.style),
            speed: self.speed,
            delay: self.delay,
            jitter: self.jitter,
            pause: self.pause,
        }
    }
}

impl View for CaptureRef {
    type V = CaptureView;

    open spec fn view(&self) -> CaptureView {
        CaptureView {
            name: self.name@,
            pattern: option_view(self.pattern),
            json_path: option_view(self.json_path),
        }
    }
}

impl View for InteractionRef {
    type V = InteractionView;

    open spec fn view(&self) -> InteractionView {
        InteractionView { expect: option_view(self.expect), send: self.send@ }
    }
}

/// The contents of an optional [`CaptureRef`].
pub open spec fn capture_ref_view(capture: Option<CaptureRef>) -> Option<CaptureView> {
    match capture {
        Some(c) => Some(c@),
        None => None,
    }
}

/// The contents of a list of [`InteractionRef`]s.
pub open spec fn interactions_view(list: Seq<InteractionRef>) -> Seq<InteractionView> {
    list.map_values(|i: InteractionRef| i@)
}

/// The contents of an optional list of [`InteractionRef`]s.
pub open spec fn interact_ref_view(list: Option<Vec<InteractionRef>>) -> Option<
    Seq<InteractionView>,
> {
    match list {
        Some(v) => Some(interactions_view(v@)),
        None => None,
    }
}

impl View for CommandRef {
    type V = CommandView;

    open spec fn view(&self) -> CommandView {
        CommandView {
            text: self.text@,
            speed: self.speed,
            delay: self.delay,
            jitter: self.jitter,
            pause: self.pause,
            capture: capture_ref_view(self.capture),
            fake_output: option_view(self.fake_output),
            output_speed: self.output_speed,
            execute: self.execute,
            wait_for: option_view(self.wait_for),
            timeout: self.timeout,
            wait: self.wait,
            interact: interact_ref_view(self.interact),
            if_condition: option_view(self.if_condition),
            unless: option_view(self.unless),
            wait_before: self.wait_before,
            wait_after: self.wait_after,
            env: bindings(self.env@),
            hidden: self.hidden,
        }
    }
}

impl View for StepRef {
    type V = StepView;

    open spec fn view(&self) -> StepView {
        match *self {
            StepRef::Directive(d) => StepView::Directive(d@),
            StepRef::TimedPause(ms) => StepView::TimedPause(ms),
            StepRef::Comment(c) => StepView::Comment(c@),
            StepRef::Ask(message, capture) => StepView::Ask(message@, capture@),
            StepRef::Input(message, capture, default) => StepView::Input(
                message@,
                capture@,
                option_view(default),
            ),
            StepRef::Command(c) => StepView::Command(c@),
        }
    }
}

/// The contents of a list of resolved steps.
pub open spec fn resolved_view(steps: Seq<ResolvedStep>) -> Seq<StepView> {
    steps.map_values(|step: ResolvedStep| step.step@)
}

/// The contents of a list of chapter markers.
pub open spec fn markers_view(markers: Seq<ChapterMarker>) -> Seq<MarkerView> {
    markers.map_values(|marker: ChapterMarker| marker@)
}

impl View for ResolvedDemo {
    type V = DemoView;

    open spec fn view(&self) -> DemoView {
        DemoView { steps: resolved_view(self.steps@), chapters: markers_view(self.chapters@) }
    }
}

// ---------------------------------------------------------------------------
// Resolution
// ---------------------------------------------------------------------------

/// The steps of all chapters, one chapter after the other.
pub open spec fn all_steps(chapters: Seq<ChapterView>) -> Seq<StepView>
    decreases chapters.len(),
{
    if chapters.len() == 0 {
        Seq::empty()
    } else {
        all_steps(chapters.drop_last()) + chapters.last().steps
    }
}

/// Where chapter `i` starts: behind the steps of all chapters before it.
pub open spec fn chapter_start(chapters: Seq<ChapterView>, i: int) -> int {
    all_steps(chapters.take(i)).len() as int
}

/// The demo that a config describes.
pub open spec fn resolved(config: ConfigView) -> DemoView {
    if config.chapters.len() > 0 {
        DemoView {
            steps: all_steps(config.chapters),
            chapters: Seq::new(
                config.chapters.len(),
                |i: int|
                    MarkerView {
                        name: config.chapters[i].name,
                        start: chapter_start(config.chapters, i),
                    },
            ),
        }
    } else {
        DemoView { steps: config.steps, chapters: Seq::empty() }
    }
}

fn resolve_capture(capture: &Option<Capture>) -> (result: Option<CaptureRef>)
    ensures
        capture_ref_view(result) == capture_view(*capture),
{
    match capture {
        Some(c) => Some(
            CaptureRef {
                name: c.name.clone(),
                pattern: copy_option(&c.pattern),
                json_path: copy_option(&c.json_path),
            },
        ),
        None => None,
    }
}

fn resolve_interact(list: &Option<Vec<Interaction>>) -> (result: Option<Vec<InteractionRef>>)
    ensures
        interact_ref_view(result) == interact_view(*list),
{
    match list {
        Some(source) => {
            let mut target: Vec<InteractionRef> = Vec::new();
            let mut i: usize = 0;
            let ghost wanted = source@.map_values(|i: Interaction| i@);
            while i < source.len()
                invariant
                    i <= source@.len(),
                    wanted == source@.map_values(|i: Interaction| i@),
                    interactions_view(target@) == wanted.take(i as int),
                decreases source@.len() - i,
            {
                let ghost before = interactions_view(target@);
                let item = InteractionRef {
                    expect: copy_option(&source[i].expect),
                    send: source[i].send.clone(),
                };
                assert(item@ == wanted[i as int]);
                target.push(item);
                assert(interactions_view(target@) =~= before.push(wanted[i as int]));
                assert(wanted.take(i + 1) =~= wanted.take(i as int).push(wanted[i as int]));
                i += 1;
            }
            assert(wanted.take(i as int) =~= wanted);
            Some(target)
        },
        None => None,
    }
}

fn resolve_command(cmd: &CommandStep) -> (result: CommandRef)
    ensures
        result@ == cmd@,
{
    CommandRef {
        text: cmd.text.clone(),
        speed: cmd.speed,
        delay: cmd.delay,
        jitter: cmd.jitter,
        pause: cmd.pause,
        capture: resolve_capture(&cmd.capture),
        fake_output: copy_option(&cmd.fake_output),
        output_speed: cmd.output_speed,
        execute: cmd.execute,
        wait_for: copy_option(&cmd.wait_for),
        timeout: cmd.timeout,
        wait: cmd.wait,
        interact: resolve_interact(&cmd.interact),
        if_condition: copy_option(&cmd.if_condition),
        unless: copy_option(&cmd.unless),
        wait_before: cmd.wait_before,
        wait_after: cmd.wait_after,
        env: cmd.env.copy(),
        hidden: cmd.hidden,
    }
}

/// A step in the form in which it is played; nothing of it is lost.
pub fn resolve_step(step: &Step) -> (result: ResolvedStep)
    ensures
        result.step@ == step@,
{
    let step = match step {
        Step::Directive(d) => StepRef::Directive(d.clone()),
        Step::Ask(a) => StepRef::Ask(a.ask.clone(), a.capture.clone()),
        Step::Input(i) => StepRef::Input(
            i.input.clone(),
            i.capture.clone(),
            copy_option(&i.default),
        ),
        Step::TimedPause(p) => StepRef::TimedPause(p.pause),
        Step::Comment(c) => StepRef::Comment(
            CommentRef {
                comment: c.comment.clone(),
                style: copy_option(&c.style),
                speed: c.speed,
                delay: c.delay,
                jitter: c.jitter,
                pause: c.pause,
            },
        ),
        Step::Command(cmd) => StepRef::Command(resolve_command(cmd)),
    };
    ResolvedStep { step }
}

/// Appends the steps of `source` to `target`.
fn append_steps(target: &mut Vec<ResolvedStep>, source: &Vec<Step>)
    ensures
        resolved_view(final(target)@) == resolved_view(old(target)@) + steps_view(source@),
{
    let ghost start = resolved_view(target@);
    let ghost wanted = steps_view(source@);
    let mut i: usize = 0;
    assert(start + wanted.take(0) =~= start);
    while i < source.len()
        invariant
            i <= source@.len(),
            wanted == steps_view(source@),
            resolved_view(target@) == start + wanted.take(i as int),
        decreases source@.len() - i,
    {
        let ghost before = resolved_view(target@);
        let item = resolve_step(&source[i]);
        assert(item.step@ == wanted[i as int]);
        target.push(item);
        assert(resolved_view(target@) =~= before.push(wanted[i as int]));
        assert(start + wanted.take(i + 1) =~= (start + wanted.take(i as int)).push(
            wanted[i as int],
        ));
        i += 1;
    }
    assert(wanted.take(i as int) =~= wanted);
}

/// The demo that a config describes.
pub fn resolve_demo(config: &Config) -> (demo: ResolvedDemo)
    ensures
        demo@ == resolved(config@),
{
    let mut steps: Vec<ResolvedStep> = Vec::new();
    let mut chapters: Vec<ChapterMarker> = Vec::new();
    assert(resolved_view(steps@) =~= Seq::empty());
    assert(markers_view(chapters@) =~= Seq::empty());
    if config.chapters.len() > 0 {
        let ghost source = config@.chapters;
        let ghost wanted = resolved(config@).chapters;
        let mut i: usize = 0;
        assert(source.take(0) =~= Seq::empty());
        assert(wanted.take(0) =~= Seq::empty());
        while i < config.chapters.len()
            invariant
                i <= config.chapters@.len(),
                config.chapters@.len() > 0,
                source == config@.chapters,
                wanted == resolved(config@).chapters,
                resolved_view(steps@) == all_steps(source.take(i as int)),
                markers_view(chapters@) == wanted.take(i as int),
            decreases config.chapters@.len() - i,
        {
            let chapter = &config.chapters[i];
            assert(chapter@ == source[i as int]);
            let ghost before = markers_view(chapters@);
            let marker = ChapterMarker { name: chapter.name.clone(), start: steps.len() };
            assert(marker@ == wanted[i as int]);
            chapters.push(marker);
            assert(markers_view(chapters@) =~= before.push(wanted[i as int]));
            assert(wanted.take(i + 1) =~= wanted.take(i as int).push(wanted[i as int]));
            append_steps(&mut steps, &chapter.steps);
            assert(source.take(i + 1).drop_last() =~= source.take(i as int));
            i += 1;
        }
        assert(source.take(i as int) =~= source);
        assert(wanted.take(i as int) =~= wanted);
    } else {
        append_steps(&mut steps, &config.steps);
        assert(Seq::empty() + config@.steps =~= config@.steps);
    }
    ResolvedDemo { steps, chapters }
}

// ---------------------------------------------------------------------------
// Laws
// ---------------------------------------------------------------------------

/// Chapter starts never go back.
pub proof fn law_chapters_in_order(chapters: Seq<ChapterView>, i: int, j: int)
    requires
        0 <= i <= j <= chapters.len(),
    ensures
        0 <= chapter_start(chapters, i) <= chapter_start(chapters, j) <= all_steps(chapters).len(),
    decreases chapters.len() - i,
{
    if i < j {
        law_chapters_in_order(chapters, i + 1, j);
        assert(chapters.take(i + 1).drop_last() =~= chapters.take(i));
    } else if j < chapters.len() {
        law_chapters_in_order(chapters, j + 1, j + 1);
        assert(chapters.take(j + 1).drop_last() =~= chapters.take(j));
    } else {
        assert(chapters.take(j) =~= chapters);
    }
}

/// From the start of a chapter on stand the steps of that chapter.
pub proof fn law_chapter_holds_its_steps(chapters: Seq<ChapterView>, i: int)
    requires
        0 <= i < chapters.len(),
    ensures
        chapter_start(chapters, i) + chapters[i].steps.len() <= all_steps(chapters).len(),
        all_steps(chapters).subrange(
            chapter_start(chapters, i),
            chapter_start(chapters, i) + chapters[i].steps.len(),
        ) == chapters[i].steps,
    decreases chapters.len(),
{
    let from = chapter_start(chapters, i);
    let to = from + chapters[i].steps.len();
    let head = chapters.drop_last();
    if i < chapters.len() - 1 {
        law_chapter_holds_its_steps(head, i);
        assert(head.take(i) =~= chapters.take(i));
        assert(all_steps(chapters).subrange(from, to) =~= all_steps(head).subrange(from, to));
    } else {
        assert(chapters.take(i) =~= head);
        assert(all_steps(chapters).subrange(from, to) =~= chapters[i].steps);
    }
}

/// A demo without chapters has the steps of its config, and nothing to navigate.
pub proof fn law_steps_are_kept(config: ConfigView)
    requires
        config.chapters.len() == 0,
    ensures
        resolved(config).steps == config.steps,
        resolved(config).chapters.len() == 0,
{
}

/// A demo with chapters has a marker for each, with its name, at the place where the steps of the
/// chapters before it end; its steps from there on are those of the chapter.
pub proof fn law_chapters_are_kept(config: ConfigView, i: int)
    requires
        0 <= i < config.chapters.len(),
    ensures
        resolved(config).chapters.len() == config.chapters.len(),
        resolved(config).chapters[i].name == config.chapters[i].name,
        ({
            let start = resolved(config).chapters[i].start;
            let end = start + config.chapters[i].steps.len();
            &&& i == 0 ==> start == 0
            &&& i + 1 < config.chapters.len() ==> resolved(config).chapters[i + 1].start == end
            &&& i + 1 == config.chapters.len() ==> resolved(config).steps.len() == end
            &&& 0 <= start <= end <= resolved(config).steps.len()
            &&& resolved(config).steps.subrange(start, end) == config.chapters[i].steps
        }),
{
    let chapters = config.chapters;
    law_chapter_holds_its_steps(chapters, i);
    assert(chapters.take(i + 1).drop_last() =~= chapters.take(i));
    assert(chapters.take(i + 1).last() == chapters[i]);
    assert(chapters.take(0) =~= Seq::empty());
    assert(chapters.take(chapters.len() as int) =~= chapters);
}

}
