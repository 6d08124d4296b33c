//! Finding one's way among the chapters of a demo.

use crate::bytes::{decode, law_text_reads_back, text_of};
use crate::demo::{markers_view, ChapterMarker, MarkerView};
use crate::text::{chars_of, decimal, law_decimal_reads_back, number_in, parse_number, same_text};
use vstd::prelude::*;
use vstd::utf8::encode_utf8;

verus! {

broadcast use vstd::seq::group_seq_axioms;

/// Where to go from a command that was typed.
#[derive(Clone, Copy, PartialEq, Eq, Structural, Debug)]
pub enum NavAction {
    /// On with the command.
    Continue,
    /// To the next chapter.
    NextChapter,
    /// To the previous chapter.
    PrevChapter,
    /// To the chapter with this index.
    JumpChapter(usize),
}

/// What a line typed at a command asks for: `n` for the next chapter, `p` for the previous one,
/// or the number of a chapter, counted from one.
pub open spec fn nav_in(text: Seq<char>) -> NavAction {
    if text == "n"@ {
        NavAction::NextChapter
    } else if text == "p"@ {
        NavAction::PrevChapter
    } else {
        match number_in(text) {
            Some(n) => if n > 0 {
                NavAction::JumpChapter((n - 1) as usize)
            } else {
                NavAction::Continue
            },
            None => NavAction::Continue,
        }
    }
}

/// What the keys pressed before Enter ask for. A demo without chapters just goes on.
pub open spec fn nav_of(has_chapters: bool, keys: Seq<u8>) -> NavAction {
    if !has_chapters || keys.len() == 0 {
        NavAction::Continue
    } else {
        nav_in(text_of(keys))
    }
}

/// What a line typed at a command asks for.
pub fn read_nav(text: &str) -> (action: NavAction)
    ensures
        action == nav_in(text@),
{
    if same_text(text, "n") {
        NavAction::NextChapter
    } else if same_text(text, "p") {
        NavAction::PrevChapter
    } else {
        match parse_number(&chars_of(text)) {
            Some(n) => if n > 0 {
                NavAction::JumpChapter(n - 1)
            } else {
                NavAction::Continue
            },
            None => NavAction::Continue,
        }
    }
}

/// What the keys pressed before Enter ask for.
pub fn read_keys(has_chapters: bool, keys: &Vec<u8>) -> (action: NavAction)
    ensures
        action == nav_of(has_chapters, keys@),
{
    if !has_chapters || keys.len() == 0 {
        return NavAction::Continue;
    }
    read_nav(decode(keys.as_slice()).as_str())
}

/// The first chapter at or after chapter `i` that starts behind step `idx`, or the number of
/// chapters.
pub open spec fn first_behind(chapters: Seq<MarkerView>, idx: int, i: int) -> int
    decreases chapters.len() - i,
{
    if i >= chapters.len() {
        chapters.len() as int
    } else if chapters[i].start > idx {
        i
    } else {
        first_behind(chapters, idx, i + 1)
    }
}

/// The last chapter before chapter `i` that starts at or ahead of step `idx`, or -1.
pub open spec fn last_reached(chapters: Seq<MarkerView>, idx: int, i: int) -> int
    decreases i,
{
    if i <= 0 {
        -1
    } else if chapters[i - 1].start <= idx {
        i - 1
    } else {
        last_reached(chapters, idx, i - 1)
    }
}

/// The chapter that an action leads to from step `idx`, if it leads anywhere.
pub open spec fn destination(chapters: Seq<MarkerView>, idx: int, action: NavAction) -> Option<
    int,
> {
    match action {
        NavAction::Continue => None,
        NavAction::NextChapter => {
            let next = first_behind(chapters, idx, 0);
            if next < chapters.len() {
                Some(next)
            } else {
                None
            }
        },
        NavAction::PrevChapter => {
            let current = last_reached(chapters, idx, chapters.len() as int);
            if current > 0 {
                Some(current - 1)
            } else if current == 0 {
                Some(0)
            } else {
                None
            }
        },
        NavAction::JumpChapter(target) => if target < chapters.len() {
            Some(target as int)
        } else {
            None
        },
    }
}

/// The chapter that an action leads to from step `idx`, if it leads anywhere.
pub fn navigate(chapters: &Vec<ChapterMarker>, idx: usize, action: NavAction) -> (target: Option<
    usize,
>)
    ensures
        match target {
            Some(t) => destination(markers_view(chapters@), idx as int, action) == Some(t as int)
                && t < chapters@.len(),
            None => destination(markers_view(chapters@), idx as int, action) is None,
        },
{
    let ghost marks = markers_view(chapters@);
    match action {
        NavAction::Continue => None,
        NavAction::NextChapter => {
            let mut i: usize = 0;
            while i < chapters.len()
                invariant
                    action == NavAction::NextChapter,
                    i <= chapters@.len(),
                    marks == markers_view(chapters@),
                    first_behind(marks, idx as int, 0) == first_behind(
                        marks,
                        idx as int,
                        i as int,
                    ),
                decreases chapters@.len() - i,
            {
                assert(marks[i as int] == chapters@[i as int]@);
                if chapters[i].start > idx {
                    return Some(i);
                }
                i += 1;
            }
            None
        },
        NavAction::PrevChapter => {
            let mut i: usize = chapters.len();
            while i > 0
                invariant
                    action == NavAction::PrevChapter,
                    i <= chapters@.len(),
                    marks == markers_view(chapters@),
                    last_reached(marks, idx as int, marks.len() as int) == last_reached(
                        marks,
                        idx as int,
                        i as int,
                    ),
                decreases i,
            {
                assert(marks[i - 1] == chapters@[i - 1]@);
                if chapters[i - 1].start <= idx {
                    return if i > 1 {
                        Some(i - 2)
                    } else {
                        Some(0)
                    };
                }
                i -= 1;
            }
            None
        },
        NavAction::JumpChapter(target) => if target < chapters.len() {
            Some(target)
        } else {
            None
        },
    }
}

/// Whether a key ends a line.
pub fn is_enter(key: u8) -> (result: bool)
    ensures
        result == enter_key(key),
{
    key == 10 || key == 13
}

/// What keys are read for.
#[derive(Clone, Copy, PartialEq, Eq, Structural, Debug)]
pub enum Awaited {
    /// Any key.
    Key,
    /// Enter.
    Enter,
    /// The keys up to Enter.
    Input,
}

/// What follows from a key.
#[derive(Clone, Copy, PartialEq, Eq, Structural, Debug)]
pub enum KeyStep {
    /// More keys are read.
    More,
    /// It was the last one.
    Done,
    /// It was the last one, and an Enter; others that wait behind it are dropped.
    DoneWithEnter,
}

/// Keys while they are read.
pub struct KeyReader {
    awaited: Awaited,
    keys: Vec<u8>,
}

/// The contents of a [`KeyReader`].
pub struct KeyReaderView {
    pub awaited: Awaited,
    pub keys: Seq<u8>,
}

impl View for KeyReader {
    type V = KeyReaderView;

    closed spec fn view(&self) -> KeyReaderView {
        KeyReaderView { awaited: self.awaited, keys: self.keys@ }
    }
}

/// The key ends a line.
pub open spec fn enter_key(key: u8) -> bool {
    key == 10 || key == 13
}

/// What follows from a key.
pub open spec fn key_step(awaited: Awaited, key: u8) -> KeyStep {
    if enter_key(key) {
        KeyStep::DoneWithEnter
    } else if awaited == Awaited::Key {
        KeyStep::Done
    } else {
        KeyStep::More
    }
}

impl KeyReader {
    /// Before any key.
    pub fn new(awaited: Awaited) -> (reader: KeyReader)
        ensures
            reader@ == (KeyReaderView { awaited, keys: Seq::empty() }),
    {
        let keys: Vec<u8> = Vec::new();
        assert(keys@ =~= Seq::empty());
        KeyReader { awaited, keys }
    }

    /// Takes a key in. Keys that Enter is to follow are kept.
    pub fn press(&mut self, key: u8) -> (step: KeyStep)
        ensures
            step == key_step(old(self)@.awaited, key),
            final(self)@ == (KeyReaderView {
                awaited: old(self)@.awaited,
                keys: if old(self)@.awaited == Awaited::Input && !enter_key(key) {
                    old(self)@.keys.push(key)
                } else {
                    old(self)@.keys
                },
            }),
    {
        if is_enter(key) {
            return KeyStep::DoneWithEnter;
        }
        match self.awaited {
            Awaited::Key => KeyStep::Done,
            Awaited::Enter => KeyStep::More,
            Awaited::Input => {
                self.keys.push(key);
                KeyStep::More
            },
        }
    }

    /// The keys that were kept.
    pub fn keys(self) -> (keys: Vec<u8>)
        ensures
            keys@ == self@.keys,
    {
        self.keys
    }
}

/// What `stty` is to be called with so that the terminal is again as it was saved. Nothing is to
/// be done where it could not be saved.
pub fn restore_tty_mode(saved: Option<String>) -> (args: Option<Vec<String>>)
    ensures
        match (saved, args) {
            (Some(mode), Some(list)) => list@ == seq![mode],
            (None, None) => true,
            _ => false,
        },
{
    match saved {
        Some(mode) => {
            let mut list: Vec<String> = Vec::new();
            list.push(mode);
            Some(list)
        },
        None => None,
    }
}

// ---------------------------------------------------------------------------
// Laws
// ---------------------------------------------------------------------------

proof fn lemma_first_behind(chapters: Seq<MarkerView>, idx: int, i: int)
    requires
        0 <= i <= chapters.len(),
    ensures
        i <= first_behind(chapters, idx, i) <= chapters.len(),
        first_behind(chapters, idx, i) < chapters.len() ==> chapters[first_behind(
            chapters,
            idx,
            i,
        )].start > idx,
        forall|k: int|
            i <= k < first_behind(chapters, idx, i) ==> (#[trigger] chapters[k]).start <= idx,
    decreases chapters.len() - i,
{
    if i < chapters.len() && chapters[i].start <= idx {
        lemma_first_behind(chapters, idx, i + 1);
    }
}

proof fn lemma_last_reached(chapters: Seq<MarkerView>, idx: int, i: int)
    requires
        0 <= i <= chapters.len(),
    ensures
        -1 <= last_reached(chapters, idx, i) < i,
        last_reached(chapters, idx, i) >= 0 ==> chapters[last_reached(
            chapters,
            idx,
            i,
        )].start <= idx,
        forall|k: int|
            last_reached(chapters, idx, i) < k < i ==> (#[trigger] chapters[k]).start > idx,
    decreases i,
{
    if i > 0 && chapters[i - 1].start > idx {
        lemma_last_reached(chapters, idx, i - 1);
    }
}

/// Navigation leads to chapters that exist.
pub proof fn law_destination_exists(chapters: Seq<MarkerView>, idx: int, action: NavAction)
    ensures
        destination(chapters, idx, action) matches Some(t) ==> 0 <= t < chapters.len(),
{
    lemma_first_behind(chapters, idx, 0);
    lemma_last_reached(chapters, idx, chapters.len() as int);
}

/// The next chapter is the first one that starts behind the current step. Where there is none,
/// the demo stays where it is.
pub proof fn law_next_is_the_first_behind(chapters: Seq<MarkerView>, idx: int)
    ensures
        match destination(chapters, idx, NavAction::NextChapter) {
            Some(t) => {
                &&& 0 <= t < chapters.len()
                &&& chapters[t].start > idx
                &&& forall|k: int| 0 <= k < t ==> (#[trigger] chapters[k]).start <= idx
            },
            None => forall|k: int|
                0 <= k < chapters.len() ==> (#[trigger] chapters[k]).start <= idx,
        },
{
    lemma_first_behind(chapters, idx, 0);
}

/// Going back leads to the chapter before the one that holds the current step, or to the first
/// chapter from within it.
pub proof fn law_previous_is_the_one_before(chapters: Seq<MarkerView>, idx: int, current: int)
    requires
        0 <= current < chapters.len(),
        chapters[current].start <= idx,
        forall|k: int| current < k < chapters.len() ==> (#[trigger] chapters[k]).start > idx,
    ensures
        destination(chapters, idx, NavAction::PrevChapter) == Some(
            if current > 0 {
                current - 1
            } else {
                0
            },
        ),
{
    lemma_last_reached(chapters, idx, chapters.len() as int);
    let reached = last_reached(chapters, idx, chapters.len() as int);
    if reached < current {
        assert(chapters[current].start > idx);
    }
    if reached > current {
        assert(chapters[reached].start > idx);
    }
}

/// From a chapter's first step, going to the next chapter and back again returns to it, where
/// every chapter has a step of its own.
pub proof fn law_next_and_previous_cancel(chapters: Seq<MarkerView>, current: int)
    requires
        0 <= current < chapters.len() - 1,
        forall|a: int, b: int|
            0 <= a < b < chapters.len() ==> (#[trigger] chapters[a]).start < (
            #[trigger] chapters[b]).start,
    ensures
        destination(chapters, chapters[current].start, NavAction::NextChapter) == Some(
            current + 1,
        ),
        destination(chapters, chapters[current + 1].start, NavAction::PrevChapter) == Some(
            current,
        ),
{
    let idx = chapters[current].start;
    lemma_first_behind(chapters, idx, 0);
    let next = first_behind(chapters, idx, 0);
    assert(chapters[current + 1].start > idx);
    if next <= current {
        assert(chapters[next].start > idx);
        assert(chapters[next].start <= chapters[current].start);
    }
    law_previous_is_the_one_before(chapters, chapters[current + 1].start, current + 1);
}

/// The number of a chapter leads to that chapter.
pub proof fn law_number_leads_to_chapter(chapters: Seq<MarkerView>, idx: int, n: nat)
    requires
        1 <= n <= chapters.len(),
        n <= usize::MAX,
    ensures
        destination(chapters, idx, nav_in(decimal(n))) == Some(n - 1),
{
    law_decimal_reads_back(n);
    reveal_strlit("n");
    reveal_strlit("p");
    assert('0' <= decimal(n)[0] <= '9');
    assert("n"@[0] == 'n');
    assert("p"@[0] == 'p');
}

/// Without chapters, and without keys, the demo just goes on. Keys that are `n`, `p` or a number
/// above zero ask for a chapter, and no others do.
pub proof fn law_what_keys_ask_for(text: Seq<char>, has_chapters: bool)
    ensures
        nav_of(false, encode_utf8(text)) == NavAction::Continue,
        nav_of(has_chapters, Seq::empty()) == NavAction::Continue,
        encode_utf8(text).len() > 0 ==> {
            &&& text == "n"@ ==> nav_of(true, encode_utf8(text)) == NavAction::NextChapter
            &&& text == "p"@ ==> nav_of(true, encode_utf8(text)) == NavAction::PrevChapter
            &&& text != "n"@ && text != "p"@ && number_in(text) is None ==> nav_of(
                true,
                encode_utf8(text),
            ) == NavAction::Continue
            &&& text != "n"@ && text != "p"@ ==> (number_in(text) matches Some(n) ==> nav_of(
                true,
                encode_utf8(text),
            ) == (if n == 0 {
                NavAction::Continue
            } else {
                NavAction::JumpChapter((n - 1) as usize)
            }))
        },
{
    law_text_reads_back(text);
    reveal_strlit("n");
    reveal_strlit("p");
    assert("n"@[0] == 'n');
    assert("p"@[0] == 'p');
}

/// A number asks for the chapter with that number, counted from one, if there is one.
pub proof fn law_jumps_go_where_they_say(chapters: Seq<MarkerView>, idx: int, target: usize)
    ensures
        destination(chapters, idx, NavAction::JumpChapter(target)) == (if target < chapters.len() {
            Some(target as int)
        } else {
            None
        }),
        destination(chapters, idx, NavAction::Continue) is None,
{
}

/// Keys are kept up to Enter, which ends every kind of reading; any key ends the wait for one.
pub proof fn law_what_ends_reading(key: u8)
    ensures
        key == 10 || key == 13 ==> key_step(Awaited::Key, key) == KeyStep::DoneWithEnter
            && key_step(Awaited::Enter, key) == KeyStep::DoneWithEnter && key_step(
            Awaited::Input,
            key,
        ) == KeyStep::DoneWithEnter,
        key != 10 && key != 13 ==> key_step(Awaited::Key, key) == KeyStep::Done && key_step(
            Awaited::Enter,
            key,
        ) == KeyStep::More && key_step(Awaited::Input, key) == KeyStep::More,
{
}

}
