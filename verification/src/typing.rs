//! Text that is typed key by key.

use crate::color::HL_RESET;
use crate::text::{chars_of, same_text};
use vstd::prelude::*;

verus! {

broadcast use vstd::seq::group_seq_axioms;

/// One key stroke: what appears, and by how much its delay is longer than that of others, in
/// milliseconds.
pub struct Keystroke {
    pub text: String,
    pub pause: u64,
}

/// The contents of a [`Keystroke`].
pub struct KeystrokeView {
    pub text: Seq<char>,
    pub pause: u64,
}

impl View for Keystroke {
    type V = KeystrokeView;

    open spec fn view(&self) -> KeystrokeView {
        KeystrokeView { text: self.text@, pause: self.pause }
    }
}

/// A text to type: its key strokes, the delay between them in milliseconds and how far it varies
/// in per cent, and what is printed after the last one.
pub struct Typing {
    pub strokes: Vec<Keystroke>,
    pub delay: u64,
    pub jitter: u64,
    pub tail: &'static str,
}

/// The contents of a [`Typing`].
#[verifier::ext_equal]
pub struct TypingView {
    pub strokes: Seq<KeystrokeView>,
    pub delay: u64,
    pub jitter: u64,
    pub tail: Seq<char>,
}

/// The contents of a list of [`Keystroke`]s.
pub open spec fn strokes_view(strokes: Seq<Keystroke>) -> Seq<KeystrokeView> {
    strokes.map_values(|stroke: Keystroke| stroke@)
}

impl View for Typing {
    type V = TypingView;

    open spec fn view(&self) -> TypingView {
        TypingView {
            strokes: strokes_view(self.strokes@),
            delay: self.delay,
            jitter: self.jitter,
            tail: self.tail@,
        }
    }
}

/// Characters at which typing pauses.
pub open spec fn is_punctuation(ch: char) -> bool {
    ch == '.' || ch == ',' || ch == ';' || ch == ':' || ch == '!' || ch == '?'
}

/// The pause at a character.
pub open spec fn pause_at(ch: char, pause: u64) -> u64 {
    if is_punctuation(ch) {
        pause
    } else {
        0
    }
}

/// The key strokes of a plain text.
pub open spec fn plain_strokes(text: Seq<char>, pause: u64) -> Seq<KeystrokeView> {
    text.map_values(
        |ch: char| KeystrokeView { text: seq![ch], pause: pause_at(ch, pause) },
    )
}

/// The key strokes of a coloured text. A colour's escape sequence comes before the first
/// character that has it.
pub open spec fn coloured_strokes(tokens: Seq<(char, Seq<char>)>, pause: u64) -> Seq<
    KeystrokeView,
> {
    Seq::new(
        tokens.len(),
        |i: int|
            {
                let before = if i > 0 {
                    tokens[i - 1].1
                } else {
                    Seq::empty()
                };
                KeystrokeView {
                    text: if tokens[i].1 != before {
                        tokens[i].1.push(tokens[i].0)
                    } else {
                        seq![tokens[i].0]
                    },
                    pause: pause_at(tokens[i].0, pause),
                }
            },
    )
}

/// The contents of a coloured text.
pub open spec fn tokens_view(tokens: Seq<(char, &'static str)>) -> Seq<(char, Seq<char>)> {
    tokens.map_values(|token: (char, &'static str)| (token.0, token.1@))
}

fn pause_for(ch: char, pause: u64) -> (ms: u64)
    ensures
        ms == pause_at(ch, pause),
{
    if ch == '.' || ch == ',' || ch == ';' || ch == ':' || ch == '!' || ch == '?' {
        pause
    } else {
        0
    }
}

/// A plain text to type, with a pause at punctuation.
pub fn type_text(text: &str, delay: u64, jitter: u64, pause: u64) -> (typing: Typing)
    ensures
        typing@ == (TypingView {
            strokes: plain_strokes(text@, pause),
            delay,
            jitter,
            tail: Seq::empty(),
        }),
{
    let chars = chars_of(text);
    let mut strokes: Vec<Keystroke> = Vec::new();
    let mut i: usize = 0;
    while i < chars.len()
        invariant
            i <= chars@.len(),
            chars@ == text@,
            strokes_view(strokes@) == plain_strokes(text@, pause).take(i as int),
        decreases chars@.len() - i,
    {
        let ghost before = strokes@;
        let mut key = String::new();
        key.push(chars[i]);
        assert(key@ =~= seq![text@[i as int]]);
        strokes.push(Keystroke { text: key, pause: pause_for(chars[i], pause) });
        assert(strokes_view(strokes@) =~= strokes_view(before).push(strokes@[i as int]@));
        assert(strokes_view(strokes@) =~= plain_strokes(text@, pause).take(i + 1));
        i += 1;
    }
    assert(strokes_view(strokes@) =~= plain_strokes(text@, pause));
    proof {
        reveal_strlit("");
        assert(""@ =~= Seq::<char>::empty());
    }
    Typing { strokes, delay, jitter, tail: "" }
}

/// A coloured text to type, with a pause at punctuation. The colour is reset at the end.
pub fn type_text_highlighted(
    tokens: &Vec<(char, &'static str)>,
    delay: u64,
    jitter: u64,
    pause: u64,
) -> (typing: Typing)
    ensures
        typing@ == (TypingView {
            strokes: coloured_strokes(tokens_view(tokens@), pause),
            delay,
            jitter,
            tail: HL_RESET@,
        }),
{
    let ghost all = tokens_view(tokens@);
    let mut strokes: Vec<Keystroke> = Vec::new();
    let mut current: &'static str = "";
    let mut i: usize = 0;
    proof {
        reveal_strlit("");
        assert(""@ =~= Seq::<char>::empty());
    }
    while i < tokens.len()
        invariant
            i <= tokens@.len(),
            all == tokens_view(tokens@),
            current@ == (if i > 0 {
                all[i - 1].1
            } else {
                Seq::empty()
            }),
            strokes_view(strokes@) == coloured_strokes(all, pause).take(i as int),
        decreases tokens@.len() - i,
    {
        let ghost before = strokes@;
        let (ch, color) = tokens[i];
        let mut key = String::new();
        if !same_text(color, current) {
            key.append(color);
        }
        current = color;
        key.push(ch);
        assert(key@ =~= coloured_strokes(all, pause)[i as int].text);
        strokes.push(Keystroke { text: key, pause: pause_for(ch, pause) });
        assert(strokes_view(strokes@) =~= strokes_view(before).push(strokes@[i as int]@));
        assert(strokes_view(strokes@) =~= coloured_strokes(all, pause).take(i + 1));
        i += 1;
    }
    assert(strokes_view(strokes@) =~= coloured_strokes(all, pause));
    Typing { strokes, delay, jitter, tail: HL_RESET }
}

impl Keystroke {
    /// How long to wait before this key stroke, where the delay came out as `varied`: at least
    /// five milliseconds, and the pause on top. `None` where that is more than a machine number
    /// holds.
    pub fn delay(&self, varied: u64) -> (ms: Option<u64>)
        ensures
            ({
                let total = (if varied < 5 {
                    5
                } else {
                    varied as int
                }) + self.pause;
                match ms {
                    Some(wait) => wait == total,
                    None => total > u64::MAX,
                }
            }),
    {
        let base: u64 = if varied < 5 {
            5
        } else {
            varied
        };
        base.checked_add(self.pause)
    }
}

// ---------------------------------------------------------------------------
// Laws
// ---------------------------------------------------------------------------

/// What appears on the screen after the first `n` key strokes.
pub open spec fn typed(strokes: Seq<KeystrokeView>, n: int) -> Seq<char>
    decreases n,
{
    if n <= 0 {
        Seq::empty()
    } else {
        typed(strokes, n - 1) + strokes[n - 1].text
    }
}

/// Typing a plain text puts exactly that text on the screen, character by character.
pub proof fn law_plain_text_appears(text: Seq<char>, pause: u64, n: int)
    requires
        0 <= n <= text.len(),
    ensures
        typed(plain_strokes(text, pause), n) == text.take(n),
    decreases n,
{
    if n > 0 {
        law_plain_text_appears(text, pause, n - 1);
        assert(text.take(n) =~= text.take(n - 1) + seq![text[n - 1]]);
    } else {
        assert(text.take(0) =~= Seq::empty());
    }
}

/// Every key stroke of a coloured text ends with its character; what precedes it is nothing or
/// the escape sequence of its colour.
pub proof fn law_coloured_text_appears(tokens: Seq<(char, Seq<char>)>, pause: u64, i: int)
    requires
        0 <= i < tokens.len(),
    ensures
        coloured_strokes(tokens, pause)[i].text.last() == tokens[i].0,
        coloured_strokes(tokens, pause)[i].text.drop_last() == Seq::<char>::empty()
            || coloured_strokes(tokens, pause)[i].text.drop_last() == tokens[i].1,
        i > 0 && tokens[i].1 == tokens[i - 1].1 ==> coloured_strokes(tokens, pause)[i].text
            == seq![tokens[i].0],
{
    let text = coloured_strokes(tokens, pause)[i].text;
    if text.len() == 1 {
        assert(text.drop_last() =~= Seq::empty());
    }
    assert(seq![tokens[i].0].drop_last() =~= Seq::empty());
    assert(tokens[i].1.push(tokens[i].0).drop_last() =~= tokens[i].1);
}

/// A key stroke of a coloured text switches to its colour exactly where that differs from the one
/// before; nothing is switched to before the first character.
pub proof fn law_colours_are_switched_where_they_change(
    tokens: Seq<(char, Seq<char>)>,
    pause: u64,
    i: int,
)
    requires
        0 <= i < tokens.len(),
        tokens[i].1.len() > 0,
    ensures
        coloured_strokes(tokens, pause).len() == tokens.len(),
        coloured_strokes(tokens, pause)[i].text == (if i > 0 && tokens[i].1 == tokens[i - 1].1 {
            seq![tokens[i].0]
        } else {
            tokens[i].1 + seq![tokens[i].0]
        }),
{
    assert(tokens[i].1.push(tokens[i].0) =~= tokens[i].1 + seq![tokens[i].0]);
}

/// Typing pauses at full stops, commas, semicolons, colons, exclamation marks and question marks,
/// and nowhere else.
pub proof fn law_typing_pauses_at_punctuation(
    text: Seq<char>,
    tokens: Seq<(char, Seq<char>)>,
    pause: u64,
    i: int,
)
    requires
        0 <= i < text.len(),
        tokens.len() == text.len(),
        tokens[i].0 == text[i],
    ensures
        ({
            let marks = ".,;:!?"@;
            let expected: u64 = if exists|k: int| 0 <= k < 6 && #[trigger] marks[k] == text[i] {
                pause
            } else {
                0
            };
            &&& plain_strokes(text, pause)[i].pause == expected
            &&& coloured_strokes(tokens, pause)[i].pause == expected
        }),
{
    reveal_strlit(".,;:!?");
    let marks = ".,;:!?"@;
    assert(marks[0] == '.' && marks[1] == ',' && marks[2] == ';' && marks[3] == ':' && marks[4]
        == '!' && marks[5] == '?');
}

}
