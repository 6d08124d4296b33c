//! Answering the questions of a running command.

use crate::bytes::{decode, text_of};
use crate::config::InteractionView;
use crate::demo::{interactions_view, InteractionRef};
use crate::run::{bytes_view, code_or, exit_code, Attended, AttendedView};
use crate::text::{contains_text, has_text, join};
use vstd::prelude::*;

verus! {

broadcast use vstd::seq::group_seq_axioms;

/// How long to listen before a line is sent unasked, in milliseconds.
pub const UNASKED_MS: u64 = 500;

/// How long to wait for what is expected, in milliseconds.
pub const EXPECT_MS: u64 = 30000;

/// How long to listen for more output at the end, in milliseconds.
pub const CLOSING_MS: u64 = 100;

/// What a dialog is doing.
#[derive(Clone, Copy, PartialEq, Eq, Structural, Debug)]
pub enum DialogPhase {
    /// Letting output pass before a line that needs no prompting.
    Draining,
    /// Waiting for the expected output.
    Listening,
    /// Sending the current line.
    Sending,
    /// Letting the last output pass.
    Closing,
}

/// A dialog with a running command: what is to be sent, the interaction that is current, and the
/// output heard since the last answer.
pub struct Dialog {
    script: Vec<InteractionRef>,
    at: Place,
    heard: String,
}

#[derive(Clone, Copy)]
struct Place {
    next: usize,
    phase: DialogPhase,
}

/// The contents of a [`Dialog`].
pub struct DialogView {
    pub next: int,
    pub heard: Seq<char>,
    pub phase: DialogPhase,
}

impl View for Dialog {
    type V = DialogView;

    closed spec fn view(&self) -> DialogView {
        DialogView { next: self.at.next as int, heard: self.heard@, phase: self.at.phase }
    }
}

/// What happened since the last action.
pub enum DialogEvent {
    /// The command printed something.
    Output(Vec<u8>),
    /// It printed nothing for as long as was to be listened, or closed its output.
    Quiet,
    /// The line was sent.
    Sent,
    /// The line could not be sent.
    Broken,
}

/// The contents of a [`DialogEvent`].
pub enum DialogEventView {
    Output(Seq<u8>),
    Quiet,
    Sent,
    Broken,
}

impl View for DialogEvent {
    type V = DialogEventView;

    open spec fn view(&self) -> DialogEventView {
        match *self {
            DialogEvent::Output(bytes) => DialogEventView::Output(bytes@),
            DialogEvent::Quiet => DialogEventView::Quiet,
            DialogEvent::Sent => DialogEventView::Sent,
            DialogEvent::Broken => DialogEventView::Broken,
        }
    }
}

/// What to do next.
pub enum DialogAction {
    /// Listen for output, for so many milliseconds.
    Listen(u64),
    /// Send this.
    Send(String),
    /// Nothing; the dialog is over.
    Done,
}

/// The contents of a [`DialogAction`].
pub enum DialogActionView {
    Listen(u64),
    Send(Seq<char>),
    Done,
}

impl View for DialogAction {
    type V = DialogActionView;

    open spec fn view(&self) -> DialogActionView {
        match *self {
            DialogAction::Listen(ms) => DialogActionView::Listen(ms),
            DialogAction::Send(line) => DialogActionView::Send(line@),
            DialogAction::Done => DialogActionView::Done,
        }
    }
}

/// The state of a dialog that turns to interaction `next`, and what it does first.
pub open spec fn turn_to(
    script: Seq<InteractionView>,
    next: int,
    heard: Seq<char>,
) -> (DialogView, DialogActionView) {
    if next < script.len() {
        match script[next].expect {
            Some(_) => (
                DialogView { next, heard, phase: DialogPhase::Listening },
                DialogActionView::Listen(EXPECT_MS),
            ),
            None => (
                DialogView { next, heard, phase: DialogPhase::Draining },
                DialogActionView::Listen(UNASKED_MS),
            ),
        }
    } else {
        closing(next, heard)
    }
}

/// The state of a dialog that has nothing more to say, and what it does first.
pub open spec fn closing(next: int, heard: Seq<char>) -> (DialogView, DialogActionView) {
    (
        DialogView { next, heard, phase: DialogPhase::Closing },
        DialogActionView::Listen(CLOSING_MS),
    )
}

/// The state of a dialog that sends its current line, and the sending.
pub open spec fn sending(script: Seq<InteractionView>, next: int, heard: Seq<char>) -> (
    DialogView,
    DialogActionView,
) {
    (
        DialogView { next, heard, phase: DialogPhase::Sending },
        DialogActionView::Send(script[next].send + "\n"@),
    )
}

/// What follows from an event: the new state and what to do next.
pub open spec fn reaction(
    script: Seq<InteractionView>,
    state: DialogView,
    event: DialogEventView,
) -> (DialogView, DialogActionView) {
    match (state.phase, event) {
        (DialogPhase::Draining, DialogEventView::Output(_)) => (
            state,
            DialogActionView::Listen(UNASKED_MS),
        ),
        (DialogPhase::Draining, DialogEventView::Quiet) => sending(
            script,
            state.next,
            state.heard,
        ),
        (DialogPhase::Listening, DialogEventView::Output(bytes)) => {
            let heard = state.heard + text_of(bytes);
            match script[state.next].expect {
                Some(expected) => if contains_text(heard, expected) {
                    sending(script, state.next, heard)
                } else {
                    (DialogView { heard, ..state }, DialogActionView::Listen(EXPECT_MS))
                },
                None => (DialogView { heard, ..state }, DialogActionView::Listen(EXPECT_MS)),
            }
        },
        (DialogPhase::Sending, DialogEventView::Sent) => turn_to(
            script,
            state.next + 1,
            if script[state.next].expect is Some {
                Seq::empty()
            } else {
                state.heard
            },
        ),
        (DialogPhase::Closing, DialogEventView::Output(_)) => (
            state,
            DialogActionView::Listen(CLOSING_MS),
        ),
        (DialogPhase::Closing, _) => (state, DialogActionView::Done),
        _ => closing(state.next, state.heard),
    }
}

/// What an event brings to show.
pub open spec fn dialog_shown(event: DialogEventView) -> Seq<char> {
    match event {
        DialogEventView::Output(bytes) => text_of(bytes),
        _ => Seq::empty(),
    }
}

/// The current interaction exists for as long as the dialog is about one.
pub open spec fn dialog_in_step(script: Seq<InteractionView>, state: DialogView) -> bool {
    &&& 0 <= state.next <= script.len()
    &&& state.phase != DialogPhase::Closing ==> state.next < script.len()
}

fn place_at(script: &Vec<InteractionRef>, next: usize) -> (result: (Place, DialogAction))
    requires
        next <= script@.len(),
    ensures
        forall|heard: Seq<char>|
            #![trigger turn_to(interactions_view(script@), next as int, heard)]
            (
                DialogView { next: result.0.next as int, heard, phase: result.0.phase },
                result.1@,
            ) == turn_to(interactions_view(script@), next as int, heard),
{
    if next < script.len() {
        match script[next].expect {
            Some(_) => (
                Place { next, phase: DialogPhase::Listening },
                DialogAction::Listen(EXPECT_MS),
            ),
            None => (
                Place { next, phase: DialogPhase::Draining },
                DialogAction::Listen(UNASKED_MS),
            ),
        }
    } else {
        (Place { next, phase: DialogPhase::Closing }, DialogAction::Listen(CLOSING_MS))
    }
}

impl Dialog {
    /// What is to be sent, and when.
    pub closed spec fn script(self) -> Seq<InteractionView> {
        interactions_view(self.script@)
    }

    /// The current interaction exists.
    #[verifier::type_invariant]
    closed spec fn valid(self) -> bool {
        dialog_in_step(
            interactions_view(self.script@),
            DialogView { next: self.at.next as int, heard: self.heard@, phase: self.at.phase },
        )
    }

    /// Opens a dialog along `script`, and tells what to do first.
    pub fn open(script: Vec<InteractionRef>) -> (result: (Dialog, DialogAction))
        ensures
            result.0.script() == interactions_view(script@),
            (result.0@, result.1@) == turn_to(interactions_view(script@), 0, Seq::empty()),
    {
        let (at, action) = place_at(&script, 0);
        let heard = String::new();
        assert(heard@ =~= Seq::empty());
        assert(turn_to(interactions_view(script@), 0, heard@).0.next == 0);
        (Dialog { script, at, heard }, action)
    }

    /// The current line, to be sent.
    fn line(&self) -> (action: DialogAction)
        requires
            self.at.next < self.script@.len(),
        ensures
            action@ == sending(self.script(), self@.next, self@.heard).1,
    {
        assert(self.script()[self.at.next as int] == self.script@[self.at.next as int]@);
        DialogAction::Send(join(self.script[self.at.next].send.as_str(), "\n"))
    }

    /// Takes an event in; gives what to show of it and tells what to do next.
    pub fn on(&mut self, event: &DialogEvent) -> (result: (String, DialogAction))
        ensures
            final(self).script() == old(self).script(),
            result.0@ == dialog_shown(event@),
            (final(self)@, result.1@) == reaction(old(self).script(), old(self)@, event@),
    {
        proof {
            use_type_invariant(&*self);
            law_lines_in_order(self.script(), self@, event@);
        }
        let shown = match event {
            DialogEvent::Output(bytes) => decode(bytes.as_slice()),
            _ => String::new(),
        };
        assert(shown@ =~= dialog_shown(event@));
        assert(self.at.next < self.script@.len() ==> self.script()[self.at.next as int]
            == self.script@[self.at.next as int]@);
        let next: usize = self.at.next;
        let action = match (self.at.phase, event) {
            (DialogPhase::Draining, DialogEvent::Output(_)) => DialogAction::Listen(UNASKED_MS),
            (DialogPhase::Draining, DialogEvent::Quiet) => {
                self.at = Place { next, phase: DialogPhase::Sending };
                self.line()
            },
            (DialogPhase::Listening, DialogEvent::Output(_)) => {
                let heard = join(self.heard.as_str(), shown.as_str());
                let answered = match &self.script[next].expect {
                    Some(expected) => has_text(heard.as_str(), expected.as_str()),
                    None => false,
                };
                self.heard = heard;
                if answered {
                    self.at = Place { next, phase: DialogPhase::Sending };
                    self.line()
                } else {
                    DialogAction::Listen(EXPECT_MS)
                }
            },
            (DialogPhase::Sending, DialogEvent::Sent) => {
                assert(next < self.script.len());
                let asked = self.script[next].expect.is_some();
                let (at, action) = place_at(&self.script, next + 1);
                if asked {
                    let heard = String::new();
                    assert(heard@ =~= Seq::empty());
                    self.heard = heard;
                }
                assert(turn_to(self.script(), next + 1, self.heard@).0.next == next + 1);
                self.at = at;
                action
            },
            (DialogPhase::Closing, DialogEvent::Output(_)) => DialogAction::Listen(CLOSING_MS),
            (DialogPhase::Closing, _) => DialogAction::Done,
            _ => {
                self.at = Place { next, phase: DialogPhase::Closing };
                DialogAction::Listen(CLOSING_MS)
            },
        };
        (shown, action)
    }
}

/// The end of a command that was talked to, where it exited with this code, if with any, and
/// reported this environment.
pub fn dialog_ended(code: Option<i32>, snapshot: Option<Vec<u8>>) -> (attended: Attended)
    ensures
        attended@ == AttendedView::Ended(code_or(code, 1) as i32, bytes_view(snapshot)),
{
    Attended::Ended(exit_code(code), snapshot)
}

// ---------------------------------------------------------------------------
// Laws
// ---------------------------------------------------------------------------

/// Lines are sent in the order of the script and none is left out: what is sent is the line of
/// the current interaction, and the dialog goes on to the next one once it is sent.
pub proof fn law_lines_in_order(
    script: Seq<InteractionView>,
    state: DialogView,
    event: DialogEventView,
)
    requires
        dialog_in_step(script, state),
    ensures
        dialog_in_step(script, reaction(script, state, event).0),
        reaction(script, state, event).1 matches DialogActionView::Send(line) ==> line
            == script[state.next].send + "\n"@ && reaction(script, state, event).0.next
            == state.next,
        reaction(script, state, event).0.next == (if state.phase == DialogPhase::Sending
            && event is Sent {
            state.next + 1
        } else {
            state.next
        }),
{
}

/// A line that expects something is sent only once that stands in the output heard since the
/// last answer.
pub proof fn law_answers_are_prompted(
    script: Seq<InteractionView>,
    state: DialogView,
    event: DialogEventView,
)
    requires
        dialog_in_step(script, state),
        state.phase == DialogPhase::Listening,
        script[state.next].expect is Some,
        reaction(script, state, event).1 is Send,
    ensures
        event is Output,
        contains_text(state.heard + dialog_shown(event), script[state.next].expect->0),
{
}

/// A dialog that closes stays closed and sends nothing more.
pub proof fn law_closing_is_final(
    script: Seq<InteractionView>,
    state: DialogView,
    event: DialogEventView,
)
    requires
        state.phase == DialogPhase::Closing,
    ensures
        reaction(script, state, event).0 == state,
        !(reaction(script, state, event).1 is Send),
{
}

/// A dialog opens at its first line: it waits half a minute for what that expects, or half a
/// second where it expects nothing, and closes where there is no line.
pub proof fn law_how_dialogs_open(script: Seq<InteractionView>)
    ensures
        script.len() > 0 && script[0].expect is Some ==> turn_to(script, 0, Seq::empty()) == (
            DialogView { next: 0, heard: Seq::empty(), phase: DialogPhase::Listening },
            DialogActionView::Listen(30000),
        ),
        script.len() > 0 && script[0].expect is None ==> turn_to(script, 0, Seq::empty()) == (
            DialogView { next: 0, heard: Seq::empty(), phase: DialogPhase::Draining },
            DialogActionView::Listen(500),
        ),
        script.len() == 0 ==> turn_to(script, 0, Seq::empty()) == (
            DialogView { next: 0, heard: Seq::empty(), phase: DialogPhase::Closing },
            DialogActionView::Listen(100),
        ),
{
}

/// While something is expected, all output is kept; the line is sent as soon as what is expected
/// stands in the output heard since the last answer, and the dialog goes on listening otherwise.
/// When nothing comes, it closes.
pub proof fn law_how_dialogs_listen(
    script: Seq<InteractionView>,
    state: DialogView,
    bytes: Seq<u8>,
    expected: Seq<char>,
)
    requires
        dialog_in_step(script, state),
        state.phase == DialogPhase::Listening,
        script[state.next].expect == Some(expected),
    ensures
        ({
            let heard = state.heard + text_of(bytes);
            reaction(script, state, DialogEventView::Output(bytes)) == (if contains_text(
                heard,
                expected,
            ) {
                (
                    DialogView { next: state.next, heard, phase: DialogPhase::Sending },
                    DialogActionView::Send(script[state.next].send + "\n"@),
                )
            } else {
                (
                    DialogView { next: state.next, heard, phase: DialogPhase::Listening },
                    DialogActionView::Listen(30000),
                )
            })
        }),
        reaction(script, state, DialogEventView::Quiet) == (
            DialogView { next: state.next, heard: state.heard, phase: DialogPhase::Closing },
            DialogActionView::Listen(100),
        ),
{
}

/// A line that expects nothing is sent once the command has been quiet for half a second; what
/// it printed meanwhile is not kept.
pub proof fn law_how_dialogs_drain(
    script: Seq<InteractionView>,
    state: DialogView,
    bytes: Seq<u8>,
)
    requires
        dialog_in_step(script, state),
        state.phase == DialogPhase::Draining,
    ensures
        reaction(script, state, DialogEventView::Output(bytes)) == (
            state,
            DialogActionView::Listen(500),
        ),
        reaction(script, state, DialogEventView::Quiet) == (
            DialogView { next: state.next, heard: state.heard, phase: DialogPhase::Sending },
            DialogActionView::Send(script[state.next].send + "\n"@),
        ),
{
}

/// After a line that was expected, only new output counts. The next line comes, or the dialog
/// closes behind the last one; it also closes where a line cannot be sent.
pub proof fn law_how_dialogs_go_on(script: Seq<InteractionView>, state: DialogView)
    requires
        dialog_in_step(script, state),
        state.phase == DialogPhase::Sending,
    ensures
        ({
            let next = state.next + 1;
            let heard = if script[state.next].expect is Some {
                Seq::<char>::empty()
            } else {
                state.heard
            };
            reaction(script, state, DialogEventView::Sent) == (if next >= script.len() {
                (
                    DialogView { next, heard, phase: DialogPhase::Closing },
                    DialogActionView::Listen(100),
                )
            } else if script[next].expect is Some {
                (
                    DialogView { next, heard, phase: DialogPhase::Listening },
                    DialogActionView::Listen(30000),
                )
            } else {
                (
                    DialogView { next, heard, phase: DialogPhase::Draining },
                    DialogActionView::Listen(500),
                )
            })
        }),
        reaction(script, state, DialogEventView::Broken) == (
            DialogView { next: state.next, heard: state.heard, phase: DialogPhase::Closing },
            DialogActionView::Listen(100),
        ),
{
}

/// A dialog that closes lets the last output pass, until there is none for a tenth of a second.
pub proof fn law_how_dialogs_close(
    script: Seq<InteractionView>,
    state: DialogView,
    bytes: Seq<u8>,
)
    requires
        state.phase == DialogPhase::Closing,
    ensures
        reaction(script, state, DialogEventView::Output(bytes)) == (
            state,
            DialogActionView::Listen(100),
        ),
        reaction(script, state, DialogEventView::Quiet) == (state, DialogActionView::Done),
        dialog_shown(DialogEventView::Output(bytes)) == text_of(bytes),
        dialog_shown(DialogEventView::Quiet) == Seq::<char>::empty(),
{
}

}
