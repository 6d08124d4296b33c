//! Waiting for a pattern in the output of a running command.

use crate::bytes::{decode, text_of};
use crate::pattern::{compile, compiled, is_match, matches_in};
use crate::run::{bytes_view, code_or, exit_code, Attended, AttendedView};
use crate::text::{decimal, decimal_text, join, option_view};
use regex::Regex;
use vstd::prelude::*;

verus! {

broadcast use vstd::seq::group_seq_axioms;

/// A wait for a pattern: what to look for, how long, and the output so far.
pub struct Watch {
    regex: Regex,
    timeout: u64,
    output: String,
}

/// The contents of a [`Watch`].
pub struct WatchView {
    pub regex: Regex,
    pub timeout: u64,
    pub output: Seq<char>,
}

impl View for Watch {
    type V = WatchView;

    closed spec fn view(&self) -> WatchView {
        WatchView { regex: self.regex, timeout: self.timeout, output: self.output@ }
    }
}

/// What happened since the last look.
pub enum WatchEvent {
    /// The time is up.
    DeadlinePassed,
    /// The command printed something.
    Output(Vec<u8>),
    /// Nothing; the command is still running.
    Idle,
    /// The command exited, with its exit code if it has one. What it had printed by then and was
    /// not reported yet comes with it.
    Exited(Option<i32>, Vec<Vec<u8>>),
    /// The command closed its output.
    Closed,
}

/// The contents of a [`WatchEvent`].
pub enum WatchEventView {
    DeadlinePassed,
    Output(Seq<u8>),
    Idle,
    Exited(Option<i32>, Seq<Seq<u8>>),
    Closed,
}

impl View for WatchEvent {
    type V = WatchEventView;

    open spec fn view(&self) -> WatchEventView {
        match *self {
            WatchEvent::DeadlinePassed => WatchEventView::DeadlinePassed,
            WatchEvent::Output(bytes) => WatchEventView::Output(bytes@),
            WatchEvent::Idle => WatchEventView::Idle,
            WatchEvent::Exited(code, chunks) => WatchEventView::Exited(
                code,
                chunks@.map_values(|chunk: Vec<u8>| chunk@),
            ),
            WatchEvent::Closed => WatchEventView::Closed,
        }
    }
}

/// What becomes of the command when the wait is over.
#[derive(Clone, Copy, PartialEq, Eq, Structural, Debug)]
pub enum Fate {
    /// It is killed.
    Kill,
    /// Its end is waited for.
    Wait,
    /// It has ended already.
    Ended,
}

/// The end of a wait: the exit code, what becomes of the command, and a note to print.
pub struct Verdict {
    pub code: i32,
    pub fate: Fate,
    pub note: Option<String>,
}

/// The contents of a [`Verdict`].
pub struct VerdictView {
    pub code: i32,
    pub fate: Fate,
    pub note: Option<Seq<char>>,
}

impl Verdict {
    /// Whether the environment that the command left behind is taken over.
    pub fn keeps_environment(&self) -> (result: bool)
        ensures
            result == (self.fate != Fate::Kill),
    {
        self.fate != Fate::Kill
    }

    /// The end of the command that was waited for, where it reported this environment. That of
    /// a command that was killed does not count.
    pub fn end(&self, snapshot: Option<Vec<u8>>) -> (attended: Attended)
        ensures
            attended@ == AttendedView::Ended(
                self.code,
                if self.fate != Fate::Kill {
                    bytes_view(snapshot)
                } else {
                    None
                },
            ),
    {
        if self.keeps_environment() {
            Attended::Ended(self.code, snapshot)
        } else {
            Attended::Ended(self.code, None)
        }
    }
}

/// What follows from an event: what to show, and the end of the wait if it is over.
pub struct WatchStep {
    pub shown: String,
    pub verdict: Option<Verdict>,
}

/// The contents of an optional [`Verdict`].
pub open spec fn verdict_view(verdict: Option<Verdict>) -> Option<VerdictView> {
    match verdict {
        Some(v) => Some(VerdictView { code: v.code, fate: v.fate, note: option_view(v.note) }),
        None => None,
    }
}

/// The texts of several chunks of output, one after the other.
pub open spec fn chunks_text(chunks: Seq<Seq<u8>>) -> Seq<char>
    decreases chunks.len(),
{
    if chunks.len() == 0 {
        Seq::empty()
    } else {
        chunks_text(chunks.drop_last()) + text_of(chunks.last())
    }
}

/// What an event brings to show.
pub open spec fn newly_shown(event: WatchEventView) -> Seq<char> {
    match event {
        WatchEventView::Output(bytes) => text_of(bytes),
        WatchEventView::Exited(_, chunks) => chunks_text(chunks),
        _ => Seq::empty(),
    }
}

/// The end of the wait that an event brings, where the pattern was found by then or was not.
pub open spec fn verdict_on(found: bool, timeout: u64, event: WatchEventView) -> Option<
    VerdictView,
> {
    let ended_early = "[demonator] command exited before pattern matched\n"@;
    match event {
        WatchEventView::Idle => None,
        WatchEventView::DeadlinePassed => Some(
            VerdictView {
                code: 1,
                fate: Fate::Kill,
                note: Some(
                    "[demonator] wait_for timed out after "@ + decimal(timeout as nat) + "s\n"@,
                ),
            },
        ),
        WatchEventView::Output(_) => if found {
            Some(VerdictView { code: 0, fate: Fate::Kill, note: None })
        } else {
            None
        },
        WatchEventView::Exited(code, _) => Some(
            if found {
                VerdictView { code: 0, fate: Fate::Ended, note: None }
            } else {
                VerdictView {
                    code: code_or(code, 1) as i32,
                    fate: Fate::Ended,
                    note: Some(ended_early),
                }
            },
        ),
        WatchEventView::Closed => Some(
            if found {
                VerdictView { code: 0, fate: Fate::Wait, note: None }
            } else {
                VerdictView { code: 1, fate: Fate::Wait, note: Some(ended_early) }
            },
        ),
    }
}

/// The end of the wait that an event brings, where the pattern was found by then or was not.
pub fn judge(found: bool, timeout: u64, event: &WatchEvent) -> (verdict: Option<Verdict>)
    ensures
        verdict_view(verdict) == verdict_on(found, timeout, event@),
{
    match event {
        WatchEvent::Idle => None,
        WatchEvent::DeadlinePassed => {
            let mut note = join(
                "[demonator] wait_for timed out after ",
                decimal_text(timeout).as_str(),
            );
            note.append("s\n");
            Some(Verdict { code: 1, fate: Fate::Kill, note: Some(note) })
        },
        WatchEvent::Output(_) => if found {
            Some(Verdict { code: 0, fate: Fate::Kill, note: None })
        } else {
            None
        },
        WatchEvent::Exited(code, _) => if found {
            Some(Verdict { code: 0, fate: Fate::Ended, note: None })
        } else {
            let note = "[demonator] command exited before pattern matched\n".to_owned();
            Some(
                Verdict { code: exit_code(*code), fate: Fate::Ended, note: Some(note) },
            )
        },
        WatchEvent::Closed => if found {
            Some(Verdict { code: 0, fate: Fate::Wait, note: None })
        } else {
            let note = "[demonator] command exited before pattern matched\n".to_owned();
            Some(Verdict { code: 1, fate: Fate::Wait, note: Some(note) })
        },
    }
}

/// The complaint about a pattern that is no regular expression.
pub open spec fn bad_pattern_note(message: Seq<char>) -> Seq<char> {
    "[demonator] invalid wait_for pattern: "@ + message + "\n"@
}

impl Watch {
    /// A wait for `pattern` of at most `timeout` seconds. Where the pattern is no regular
    /// expression, the command is refused.
    pub fn new(pattern: &str, timeout: u64) -> (result: Result<Watch, Attended>)
        ensures
            match (result, compiled(pattern@)) {
                (Ok(watch), Ok(regex)) => watch@ == (WatchView {
                    regex,
                    timeout,
                    output: Seq::empty(),
                }),
                (Err(refused), Err(message)) => refused@ == AttendedView::Refused(
                    bad_pattern_note(message),
                ),
                _ => false,
            },
    {
        match compile(pattern) {
            Ok(regex) => Ok(Watch { regex, timeout, output: String::new() }),
            Err(message) => {
                let mut note = join("[demonator] invalid wait_for pattern: ", message.as_str());
                note.append("\n");
                Err(Attended::Refused(note))
            },
        }
    }

    /// The time limit, in seconds.
    pub fn timeout(&self) -> (seconds: u64)
        ensures
            seconds == self@.timeout,
    {
        self.timeout
    }

    /// Takes an event in and tells what follows from it.
    pub fn on(&mut self, event: &WatchEvent) -> (step: WatchStep)
        ensures
            step.shown@ == newly_shown(event@),
            final(self)@ == (WatchView {
                output: old(self)@.output + newly_shown(event@),
                ..old(self)@
            }),
            verdict_view(step.verdict) == verdict_on(
                matches_in(old(self)@.regex, old(self)@.output + newly_shown(event@)),
                old(self)@.timeout,
                event@,
            ),
    {
        let shown = match event {
            WatchEvent::Output(bytes) => decode(bytes.as_slice()),
            WatchEvent::Exited(_, chunks) => decode_chunks(chunks),
            _ => String::new(),
        };
        self.output.append(shown.as_str());
        let found = match event {
            WatchEvent::Idle => false,
            WatchEvent::DeadlinePassed => false,
            _ => is_match(&self.regex, self.output.as_str()),
        };
        let verdict = judge(found, self.timeout, event);
        WatchStep { shown, verdict }
    }
}

fn decode_chunks(chunks: &Vec<Vec<u8>>) -> (text: String)
    ensures
        text@ == chunks_text(chunks@.map_values(|chunk: Vec<u8>| chunk@)),
{
    let mut text = String::new();
    let mut i: usize = 0;
    let ghost all = chunks@.map_values(|chunk: Vec<u8>| chunk@);
    while i < chunks.len()
        invariant
            i <= chunks@.len(),
            all == chunks@.map_values(|chunk: Vec<u8>| chunk@),
            text@ == chunks_text(all.take(i as int)),
        decreases chunks@.len() - i,
    {
        assert(all.take(i + 1).drop_last() =~= all.take(i as int));
        assert(all[i as int] == chunks@[i as int]@);
        text.append(decode(chunks[i].as_slice()).as_str());
        i += 1;
    }
    assert(all.take(i as int) =~= all);
    text
}

/// Once the pattern stands in what the command printed, the wait ends with success, unless the
/// time is up.
pub proof fn law_match_succeeds(timeout: u64, event: WatchEventView)
    requires
        !(event is DeadlinePassed),
        !(event is Idle),
    ensures
        verdict_on(true, timeout, event) matches Some(v) && v.code == 0 && v.note is None,
{
}

/// A command is killed exactly when it is still running as the wait ends: on a match in its
/// output, or when the time is up.
pub proof fn law_only_running_commands_are_killed(found: bool, timeout: u64, event: WatchEventView)
    requires
        verdict_on(found, timeout, event) is Some,
    ensures
        verdict_on(found, timeout, event)->0.fate == Fate::Kill <==> (event is Output
            || event is DeadlinePassed),
{
}

/// Output without a match does not end the wait, and neither does silence.
pub proof fn law_wait_goes_on(timeout: u64, bytes: Seq<u8>, found: bool)
    ensures
        verdict_on(false, timeout, WatchEventView::Output(bytes)) is None,
        verdict_on(found, timeout, WatchEventView::Idle) is None,
{
}

/// How a wait ends, event by event.
pub proof fn law_how_waits_end(
    found: bool,
    timeout: u64,
    bytes: Seq<u8>,
    code: Option<i32>,
    chunks: Seq<Seq<u8>>,
)
    ensures
        verdict_on(found, timeout, WatchEventView::DeadlinePassed) == Some(
            VerdictView {
                code: 1,
                fate: Fate::Kill,
                note: Some(
                    "[demonator] wait_for timed out after "@ + decimal(timeout as nat) + "s\n"@,
                ),
            },
        ),
        verdict_on(true, timeout, WatchEventView::Output(bytes)) == Some(
            VerdictView { code: 0, fate: Fate::Kill, note: None },
        ),
        verdict_on(true, timeout, WatchEventView::Exited(code, chunks)) == Some(
            VerdictView { code: 0, fate: Fate::Ended, note: None },
        ),
        verdict_on(true, timeout, WatchEventView::Closed) == Some(
            VerdictView { code: 0, fate: Fate::Wait, note: None },
        ),
        verdict_on(false, timeout, WatchEventView::Exited(code, chunks)) == Some(
            VerdictView {
                code: match code {
                    Some(c) => c,
                    None => 1,
                },
                fate: Fate::Ended,
                note: Some("[demonator] command exited before pattern matched\n"@),
            },
        ),
        verdict_on(false, timeout, WatchEventView::Closed) == Some(
            VerdictView {
                code: 1,
                fate: Fate::Wait,
                note: Some("[demonator] command exited before pattern matched\n"@),
            },
        ),
{
}

/// All that a command prints is shown as it comes, and nothing else.
pub proof fn law_output_is_shown(
    bytes: Seq<u8>,
    code: Option<i32>,
    chunks: Seq<Seq<u8>>,
    last: Seq<u8>,
)
    ensures
        newly_shown(WatchEventView::Output(bytes)) == text_of(bytes),
        newly_shown(WatchEventView::Exited(code, Seq::empty())) == Seq::<char>::empty(),
        newly_shown(WatchEventView::Exited(code, chunks.push(last))) == newly_shown(
            WatchEventView::Exited(code, chunks),
        ) + text_of(last),
        newly_shown(WatchEventView::Idle) == Seq::<char>::empty(),
        newly_shown(WatchEventView::DeadlinePassed) == Seq::<char>::empty(),
        newly_shown(WatchEventView::Closed) == Seq::<char>::empty(),
{
    assert(chunks.push(last).drop_last() =~= chunks);
}

}
