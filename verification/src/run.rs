//! What follows from running a command: what is printed, what is captured, and the environment
//! for later commands.

use crate::bytes::{decode, text_of};
use crate::capture::{
    capture_complaint, captured_from, complain, take_capture, Captured, CapturedView,
};
use crate::config::CaptureView;
use crate::demo::{capture_ref_view, CaptureRef};
use crate::json_path::extracted;
use crate::pattern::{compiled, group_text};
use crate::snapshot::{parse_env_snapshot, reported_env};
use crate::text::{join, option_view, signed_decimal, signed_text};
use crate::vars::{bindings, persist_env_snapshot, settled, Vars};
use vstd::prelude::*;

verus! {

broadcast use vstd::seq::group_seq_axioms;

/// A text to print, on the standard output or on the error output.
pub enum Output {
    Stdout(String),
    Stderr(String),
}

/// The contents of an [`Output`].
pub enum OutputView {
    Stdout(Seq<char>),
    Stderr(Seq<char>),
}

impl View for Output {
    type V = OutputView;

    open spec fn view(&self) -> OutputView {
        match *self {
            Output::Stdout(text) => OutputView::Stdout(text@),
            Output::Stderr(text) => OutputView::Stderr(text@),
        }
    }
}

/// The contents of a list of [`Output`]s.
pub open spec fn outputs_view(outputs: Seq<Output>) -> Seq<OutputView> {
    outputs.map_values(|output: Output| output@)
}

/// A command that has run: its exit code if it has one, what it printed as far as that was
/// collected, and the environment it left behind if it reported one.
pub struct Ran {
    pub code: Option<i32>,
    pub stdout: Vec<u8>,
    pub stderr: Vec<u8>,
    pub snapshot: Option<Vec<u8>>,
}

/// The contents of a [`Ran`].
pub struct RanView {
    pub code: Option<i32>,
    pub stdout: Seq<u8>,
    pub stderr: Seq<u8>,
    pub snapshot: Option<Seq<u8>>,
}

/// The contents of an optional list of bytes.
pub open spec fn bytes_view(bytes: Option<Vec<u8>>) -> Option<Seq<u8>> {
    match bytes {
        Some(b) => Some(b@),
        None => None,
    }
}

impl View for Ran {
    type V = RanView;

    open spec fn view(&self) -> RanView {
        RanView {
            code: self.code,
            stdout: self.stdout@,
            stderr: self.stderr@,
            snapshot: bytes_view(self.snapshot),
        }
    }
}

/// How an attempt to run a command ended.
pub enum Outcome {
    /// The command has run.
    Ran(Ran),
    /// It could not be run, for this reason.
    Failed(String),
}

/// The contents of an [`Outcome`].
pub enum OutcomeView {
    Ran(RanView),
    Failed(Seq<char>),
}

impl View for Outcome {
    type V = OutcomeView;

    open spec fn view(&self) -> OutcomeView {
        match *self {
            Outcome::Ran(ran) => OutcomeView::Ran(ran@),
            Outcome::Failed(reason) => OutcomeView::Failed(reason@),
        }
    }
}

// ---------------------------------------------------------------------------
// Environment
// ---------------------------------------------------------------------------

/// The environment for later commands, after one that started in `before` with `overlay` laid
/// over it and reported what it left behind.
pub open spec fn env_after(
    before: Map<Seq<char>, Seq<char>>,
    overlay: Map<Seq<char>, Seq<char>>,
    snapshot: Option<Seq<u8>>,
) -> Map<Seq<char>, Seq<char>> {
    match snapshot {
        Some(bytes) => settled(before, overlay, bindings(reported_env(bytes))),
        None => before,
    }
}

/// The environment for later commands, after an attempt to run one.
pub open spec fn env_after_outcome(
    before: Map<Seq<char>, Seq<char>>,
    overlay: Map<Seq<char>, Seq<char>>,
    outcome: OutcomeView,
) -> Map<Seq<char>, Seq<char>> {
    match outcome {
        OutcomeView::Ran(ran) => env_after(before, overlay, ran.snapshot),
        OutcomeView::Failed(_) => before,
    }
}

/// Takes over the environment that a command reported.
pub fn take_snapshot(env_state: &mut Vars, overlay: &Vars, snapshot: &Option<Vec<u8>>)
    ensures
        bindings(final(env_state)@) == env_after(
            bindings(old(env_state)@),
            bindings(overlay@),
            bytes_view(*snapshot),
        ),
{
    let before = env_state.copy();
    let left = match snapshot {
        Some(bytes) => Some(parse_env_snapshot(bytes)),
        None => None,
    };
    persist_env_snapshot(env_state, &before, overlay, left);
}

// ---------------------------------------------------------------------------
// Commands of steps
// ---------------------------------------------------------------------------

/// What came of running a command for all to see.
pub struct Report {
    pub captured: Option<String>,
    pub code: i32,
    pub outputs: Vec<Output>,
}

/// The contents of a [`Report`].
pub struct ReportView {
    pub captured: Option<Seq<char>>,
    pub code: int,
    pub outputs: Seq<OutputView>,
}

impl View for Report {
    type V = ReportView;

    open spec fn view(&self) -> ReportView {
        ReportView {
            captured: option_view(self.captured),
            code: self.code as int,
            outputs: outputs_view(self.outputs@),
        }
    }
}

/// The exit code, or `otherwise` for a command that has none.
pub open spec fn code_or(code: Option<i32>, otherwise: int) -> int {
    match code {
        Some(c) => c as int,
        None => otherwise,
    }
}

/// The exit code of a command; one for a command that has none.
pub fn exit_code(code: Option<i32>) -> (result: i32)
    ensures
        result == code_or(code, 1),
{
    match code {
        Some(c) => c,
        None => 1,
    }
}

/// The note on a command that did not succeed.
pub open spec fn exit_note(code: Option<i32>, show: bool) -> Seq<OutputView> {
    if code != Some(0i32) && show {
        seq![
            OutputView::Stderr(
                "[demonator] command exited with status "@ + signed_decimal(
                    code_or(code, 1),
                ) + "\n"@,
            ),
        ]
    } else {
        Seq::empty()
    }
}

/// The note on a command that could not be run.
pub open spec fn failure_note(reason: Seq<char>) -> OutputView {
    OutputView::Stderr("[demonator] failed to run command: "@ + reason + "\n"@)
}

/// The value in a capture, if it has one.
pub open spec fn captured_value(captured: CapturedView) -> Option<Seq<char>> {
    match captured {
        CapturedView::Value(value) => Some(value),
        _ => None,
    }
}

/// The complaint about a capture, if there is one.
pub open spec fn complaint_note(capture: CaptureView, captured: CapturedView) -> Seq<OutputView> {
    match capture_complaint(capture, captured) {
        Some(text) => seq![OutputView::Stderr(text)],
        None => Seq::empty(),
    }
}

/// What comes of a command that has run for all to see, where this was captured. If something is
/// to be captured, its output was collected and is printed now.
pub open spec fn run_report(
    ran: RanView,
    capture: Option<CaptureView>,
    captured: CapturedView,
    show_exit_status: bool,
) -> ReportView {
    match capture {
        None => ReportView {
            captured: None,
            code: code_or(ran.code, 1),
            outputs: exit_note(ran.code, show_exit_status),
        },
        Some(wanted) => ReportView {
            captured: captured_value(captured),
            code: code_or(ran.code, 1),
            outputs: seq![
                OutputView::Stdout(text_of(ran.stdout)),
                OutputView::Stderr(text_of(ran.stderr)),
            ] + exit_note(ran.code, show_exit_status) + complaint_note(wanted, captured),
        },
    }
}

/// What is captured from a command that has run for all to see: JSON is looked for in its
/// standard output, a pattern in both outputs.
pub open spec fn visible_capture(ran: RanView, capture: Option<CaptureView>) -> CapturedView {
    match capture {
        Some(wanted) => captured_from(
            wanted,
            text_of(ran.stdout),
            text_of(ran.stdout) + text_of(ran.stderr),
        ),
        None => CapturedView::Nothing,
    }
}

/// What comes of running a command for all to see.
pub open spec fn reported(
    outcome: OutcomeView,
    capture: Option<CaptureView>,
    show_exit_status: bool,
) -> ReportView {
    match outcome {
        OutcomeView::Failed(reason) => ReportView {
            captured: None,
            code: 1,
            outputs: seq![failure_note(reason)],
        },
        OutcomeView::Ran(ran) => run_report(
            ran,
            capture,
            visible_capture(ran, capture),
            show_exit_status,
        ),
    }
}

fn failure_text(reason: &str) -> (text: String)
    ensures
        OutputView::Stderr(text@) == failure_note(reason@),
{
    let mut text = join("[demonator] failed to run command: ", reason);
    text.append("\n");
    text
}

fn push_output(outputs: &mut Vec<Output>, output: Output)
    ensures
        outputs_view(final(outputs)@) == outputs_view(old(outputs)@).push(output@),
{
    let ghost before = outputs@;
    outputs.push(output);
    assert(outputs_view(outputs@) =~= outputs_view(before).push(output@));
}

fn push_exit_note(outputs: &mut Vec<Output>, code: Option<i32>, show: bool)
    ensures
        outputs_view(final(outputs)@) == outputs_view(old(outputs)@) + exit_note(code, show),
{
    let failed = match code {
        Some(c) => c != 0,
        None => true,
    };
    if failed && show {
        let mut text = join(
            "[demonator] command exited with status ",
            signed_text(exit_code(code)).as_str(),
        );
        text.append("\n");
        push_output(outputs, Output::Stderr(text));
    }
    assert(outputs_view(outputs@) =~= outputs_view(old(outputs)@) + exit_note(code, show));
}

/// What comes of a command that has run for all to see, where this was captured.
pub fn report_run(
    ran: &Ran,
    capture: &Option<CaptureRef>,
    captured: Captured,
    show_exit_status: bool,
) -> (report: Report)
    ensures
        report@ == run_report(ran@, capture_ref_view(*capture), captured@, show_exit_status),
{
    let mut outputs: Vec<Output> = Vec::new();
    assert(outputs_view(outputs@) =~= Seq::empty());
    let code: i32 = exit_code(ran.code);
    match capture {
        None => {
            push_exit_note(&mut outputs, ran.code, show_exit_status);
            assert(outputs_view(outputs@) =~= exit_note(ran.code, show_exit_status));
            Report { captured: None, code, outputs }
        },
        Some(wanted) => {
            let complaint = complain(wanted, &captured);
            push_output(&mut outputs, Output::Stdout(decode(ran.stdout.as_slice())));
            push_output(&mut outputs, Output::Stderr(decode(ran.stderr.as_slice())));
            push_exit_note(&mut outputs, ran.code, show_exit_status);
            if let Some(text) = complaint {
                push_output(&mut outputs, Output::Stderr(text));
            }
            assert(outputs_view(outputs@) =~= run_report(
                ran@,
                capture_ref_view(*capture),
                captured@,
                show_exit_status,
            ).outputs);
            let value = match captured {
                Captured::Value(value) => Some(value),
                _ => None,
            };
            Report { captured: value, code, outputs }
        },
    }
}

fn capture_visible(ran: &Ran, capture: &Option<CaptureRef>) -> (captured: Captured)
    ensures
        captured@ == visible_capture(ran@, capture_ref_view(*capture)),
{
    match capture {
        Some(wanted) => {
            let stdout = decode(ran.stdout.as_slice());
            let both = join(stdout.as_str(), decode(ran.stderr.as_slice()).as_str());
            take_capture(wanted, stdout.as_str(), both.as_str())
        },
        None => Captured::Nothing,
    }
}

/// Draws the conclusions from running a command for all to see: takes over the environment it
/// left behind and tells what to print, what was captured and how it exited.
pub fn run_command(
    outcome: &Outcome,
    capture: &Option<CaptureRef>,
    env_state: &mut Vars,
    overlay: &Vars,
    show_exit_status: bool,
) -> (report: Report)
    ensures
        report@ == reported(outcome@, capture_ref_view(*capture), show_exit_status),
        bindings(final(env_state)@) == env_after_outcome(
            bindings(old(env_state)@),
            bindings(overlay@),
            outcome@,
        ),
{
    match outcome {
        Outcome::Ran(ran) => {
            take_snapshot(env_state, overlay, &ran.snapshot);
            let captured = capture_visible(ran, capture);
            report_run(ran, capture, captured, show_exit_status)
        },
        Outcome::Failed(reason) => {
            let mut outputs: Vec<Output> = Vec::new();
            push_output(&mut outputs, Output::Stderr(failure_text(reason.as_str())));
            assert(outputs_view(outputs@) =~= seq![failure_note(reason@)]);
            Report { captured: None, code: 1, outputs }
        },
    }
}

/// What is captured from a command that runs unseen: both JSON and patterns are looked for in
/// its standard output.
pub open spec fn hidden_value(capture: CaptureView, stdout: Seq<u8>) -> Option<Seq<char>> {
    captured_value(captured_from(capture, text_of(stdout), text_of(stdout)))
}

/// What is captured from a command that runs unseen.
pub fn capture_hidden(capture: &CaptureRef, stdout: &Vec<u8>) -> (value: Option<String>)
    ensures
        option_view(value) == hidden_value(capture@, stdout@),
{
    let text = decode(stdout.as_slice());
    match take_capture(capture, text.as_str(), text.as_str()) {
        Captured::Value(value) => Some(value),
        _ => None,
    }
}

// ---------------------------------------------------------------------------
// Commands that are watched or talked to
// ---------------------------------------------------------------------------

/// How an attempt to watch a command, or to talk to one, ended.
pub enum Attended {
    /// With this exit code, and with the environment that the command reported, if that counts.
    Ended(i32, Option<Vec<u8>>),
    /// The command was not started, for what this note says.
    Refused(String),
    /// The command could not be started, for this reason.
    Failed(String),
}

/// The contents of an [`Attended`].
pub enum AttendedView {
    Ended(i32, Option<Seq<u8>>),
    Refused(Seq<char>),
    Failed(Seq<char>),
}

impl View for Attended {
    type V = AttendedView;

    open spec fn view(&self) -> AttendedView {
        match *self {
            Attended::Ended(code, snapshot) => AttendedView::Ended(code, bytes_view(snapshot)),
            Attended::Refused(note) => AttendedView::Refused(note@),
            Attended::Failed(reason) => AttendedView::Failed(reason@),
        }
    }
}

/// The result of an attended command; one where it was not started.
pub open spec fn attended_code(attended: AttendedView) -> int {
    match attended {
        AttendedView::Ended(code, _) => code as int,
        AttendedView::Refused(_) => 1,
        AttendedView::Failed(_) => 1,
    }
}

/// What is printed of an attended command in the end.
pub open spec fn attended_notes(attended: AttendedView) -> Seq<OutputView> {
    match attended {
        AttendedView::Ended(_, _) => Seq::empty(),
        AttendedView::Refused(note) => seq![OutputView::Stderr(note)],
        AttendedView::Failed(reason) => seq![failure_note(reason)],
    }
}

/// The environment for later commands, after an attended one.
pub open spec fn env_after_attended(
    before: Map<Seq<char>, Seq<char>>,
    overlay: Map<Seq<char>, Seq<char>>,
    attended: AttendedView,
) -> Map<Seq<char>, Seq<char>> {
    match attended {
        AttendedView::Ended(_, snapshot) => env_after(before, overlay, snapshot),
        _ => before,
    }
}

/// Draws the conclusions from an attended command: takes over the environment it left behind,
/// and gives its result and what to print.
pub fn run_attended_command(attended: &Attended, env_state: &mut Vars, overlay: &Vars) -> (result: (
    i32,
    Vec<Output>,
))
    ensures
        result.0 == attended_code(attended@),
        outputs_view(result.1@) == attended_notes(attended@),
        bindings(final(env_state)@) == env_after_attended(
            bindings(old(env_state)@),
            bindings(overlay@),
            attended@,
        ),
{
    let mut outputs: Vec<Output> = Vec::new();
    assert(outputs_view(outputs@) =~= Seq::empty());
    match attended {
        Attended::Ended(code, snapshot) => {
            take_snapshot(env_state, overlay, snapshot);
            (*code, outputs)
        },
        Attended::Refused(note) => {
            push_output(&mut outputs, Output::Stderr(note.clone()));
            assert(outputs_view(outputs@) =~= attended_notes(attended@));
            (1, outputs)
        },
        Attended::Failed(reason) => {
            push_output(&mut outputs, Output::Stderr(failure_text(reason.as_str())));
            assert(outputs_view(outputs@) =~= attended_notes(attended@));
            (1, outputs)
        },
    }
}

/// A command that was not started has the result one, leaves a note, and changes nothing.
pub proof fn law_unstarted_commands_fail(
    attended: AttendedView,
    before: Map<Seq<char>, Seq<char>>,
    overlay: Map<Seq<char>, Seq<char>>,
)
    requires
        !(attended is Ended),
    ensures
        attended_code(attended) == 1,
        attended_notes(attended).len() == 1,
        attended_notes(attended)[0] is Stderr,
        env_after_attended(before, overlay, attended) == before,
{
}

// ---------------------------------------------------------------------------
// Setup and teardown
// ---------------------------------------------------------------------------

/// The note on a setup or teardown command that did not succeed.
pub open spec fn housekeeping_note(command: Seq<char>, outcome: OutcomeView) -> Seq<OutputView> {
    match outcome {
        OutcomeView::Ran(ran) => if ran.code != Some(0i32) {
            seq![
                OutputView::Stderr(
                    "[demonator] setup/teardown command failed ("@ + signed_decimal(
                        code_or(ran.code, -1),
                    ) + "): "@ + command + "\n"@,
                ),
            ]
        } else {
            Seq::empty()
        },
        OutcomeView::Failed(_) => Seq::empty(),
    }
}

/// Draws the conclusions from running a setup or teardown command.
pub fn run_hidden_command(command: &str, outcome: &Outcome, env_state: &mut Vars) -> (outputs: Vec<
    Output,
>)
    ensures
        outputs_view(outputs@) == housekeeping_note(command@, outcome@),
        bindings(final(env_state)@) == env_after_outcome(
            bindings(old(env_state)@),
            Map::empty(),
            outcome@,
        ),
{
    let mut outputs: Vec<Output> = Vec::new();
    assert(outputs_view(outputs@) =~= Seq::empty());
    if let Outcome::Ran(ran) = outcome {
        let nothing = Vars::new();
        assert(bindings(nothing@) =~= Map::empty());
        take_snapshot(env_state, &nothing, &ran.snapshot);
        let (failed, code): (bool, i32) = match ran.code {
            Some(c) => (c != 0, c),
            None => (true, -1),
        };
        if failed {
            let mut text = join(
                "[demonator] setup/teardown command failed (",
                signed_text(code).as_str(),
            );
            text.append("): ");
            text.append(command);
            text.append("\n");
            push_output(&mut outputs, Output::Stderr(text));
            assert(outputs_view(outputs@) =~= housekeeping_note(command@, outcome@));
        }
    }
    outputs
}

/// What a JSON path captures from a command that is run for all to see depends on its standard
/// output alone: it is what the path picks out of that, whatever stands on the error output and
/// however the command exited.
pub proof fn law_json_comes_from_standard_output(
    one: RanView,
    other: RanView,
    capture: CaptureView,
    path: Seq<char>,
    show: bool,
)
    requires
        capture.json_path == Some(path),
        one.stdout == other.stdout,
    ensures
        reported(OutcomeView::Ran(one), Some(capture), show).captured == extracted(
            text_of(one.stdout),
            path,
        ),
        reported(OutcomeView::Ran(other), Some(capture), show).captured == extracted(
            text_of(one.stdout),
            path,
        ),
        hidden_value(capture, one.stdout) == extracted(text_of(one.stdout), path),
{
}

/// What a pattern captures from a command is group one of its match: in the standard output and
/// the error output behind it where the command is run for all to see, in the standard output
/// where it is hidden. Nothing is captured where there is no match, or no pattern.
pub proof fn law_patterns_are_searched_for(ran: RanView, capture: CaptureView, show: bool)
    requires
        capture.json_path is None,
    ensures
        ({
            let seen = reported(OutcomeView::Ran(ran), Some(capture), show).captured;
            let hidden = hidden_value(capture, ran.stdout);
            match capture.pattern {
                Some(pattern) => match compiled(pattern) {
                    Ok(regex) => {
                        &&& seen == group_text(
                            regex,
                            text_of(ran.stdout) + text_of(ran.stderr),
                            1,
                        )
                        &&& hidden == group_text(regex, text_of(ran.stdout), 1)
                    },
                    Err(_) => seen is None && hidden is None,
                },
                None => seen is None && hidden is None,
            }
        }),
{
}

/// The result of a command is its exit code, and one where it has none or could not be run.
pub proof fn law_results_of_commands(
    ran: RanView,
    capture: Option<CaptureView>,
    show: bool,
    reason: Seq<char>,
)
    ensures
        reported(OutcomeView::Ran(ran), capture, show).code == (if ran.code is Some {
            ran.code->0 as int
        } else {
            1
        }),
        reported(OutcomeView::Failed(reason), capture, show).code == 1,
        reported(OutcomeView::Failed(reason), capture, show).captured is None,
        capture is None ==> reported(OutcomeView::Ran(ran), capture, show).captured is None,
{
}

/// What is printed of a command that has run for all to see, no less and no more: its outputs
/// where they were collected, the exit status where it failed and that is to be shown, and a
/// complaint where a JSON path led nowhere or a pattern is no regular expression.
pub proof fn law_what_is_printed(ran: RanView, capture: Option<CaptureView>, show: bool)
    ensures
        ({
            let out = reported(OutcomeView::Ran(ran), capture, show).outputs;
            let code: int = if ran.code is Some {
                ran.code->0 as int
            } else {
                1
            };
            let status = if show && ran.code != Some(0i32) {
                seq![
                    OutputView::Stderr(
                        "[demonator] command exited with status "@ + signed_decimal(code) + "\n"@,
                    ),
                ]
            } else {
                Seq::<OutputView>::empty()
            };
            match capture {
                None => out == status,
                Some(wanted) => {
                    let complaint = if wanted.json_path is Some {
                        if extracted(text_of(ran.stdout), wanted.json_path->0) is None {
                            seq![
                                OutputView::Stderr(
                                    "[demonator] json_path '"@ + wanted.json_path->0
                                        + "' did not match\n"@,
                                ),
                            ]
                        } else {
                            Seq::<OutputView>::empty()
                        }
                    } else if wanted.pattern is Some && compiled(wanted.pattern->0) is Err {
                        seq![
                            OutputView::Stderr(
                                "[demonator] invalid capture pattern: "@ + wanted.pattern->0
                                    + "\n"@,
                            ),
                        ]
                    } else {
                        Seq::<OutputView>::empty()
                    };
                    out == seq![
                        OutputView::Stdout(text_of(ran.stdout)),
                        OutputView::Stderr(text_of(ran.stderr)),
                    ] + status + complaint
                },
            }
        }),
{
}

}
