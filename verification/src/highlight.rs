//! Syntax colours for the commands of a demo.

use crate::color::{
    color_codes, lemma_table_texts, HL_BOLD_WHITE, HL_CYAN, HL_GREEN, HL_MAGENTA, HL_RESET, HL_YELLOW,
};
use crate::text::{chars_of, find_char, lemma_find_char, lemma_find_char_grows, position_of};
use vstd::prelude::*;

verus! {

broadcast use vstd::seq::group_seq_axioms;

/// What `char::is_alphanumeric` says of a character beyond ASCII: whether Unicode counts it among
/// the letters or the numbers.
pub uninterp spec fn alphanumeric(ch: char) -> bool;

/// Letters and numbers: in ASCII the letters and digits, beyond it what Unicode counts as such.
pub open spec fn letter_or_number(ch: char) -> bool {
    if (ch as u32) < 0x80 {
        'a' <= ch <= 'z' || 'A' <= ch <= 'Z' || '0' <= ch <= '9'
    } else {
        alphanumeric(ch)
    }
}

/// `char::is_alphanumeric`. In ASCII it accepts the letters and digits and nothing else; beyond
/// ASCII its answer depends on the character alone, and which characters it accepts is left to
/// the Unicode tables behind it.
#[verifier::external_body]
fn is_alphanumeric(ch: char) -> (result: bool)
    ensures
        result == (if (ch as u32) < 0x80 {
            'a' <= ch <= 'z' || 'A' <= ch <= 'Z' || '0' <= ch <= '9'
        } else {
            alphanumeric(ch)
        }),
{
    ch.is_alphanumeric()
}

/// The colours a command is shown in.
#[derive(Clone, Copy, PartialEq, Eq, Structural, Debug)]
pub enum Color {
    Reset,
    BoldWhite,
    Yellow,
    Green,
    Cyan,
    Magenta,
}

/// The escape sequence of a colour.
pub open spec fn color_code(color: Color) -> Seq<char> {
    match color {
        Color::Reset => HL_RESET@,
        Color::BoldWhite => HL_BOLD_WHITE@,
        Color::Yellow => HL_YELLOW@,
        Color::Green => HL_GREEN@,
        Color::Cyan => HL_CYAN@,
        Color::Magenta => HL_MAGENTA@,
    }
}

impl Color {
    /// The escape sequence of the colour.
    pub fn code(self) -> (code: &'static str)
        ensures
            code@ == color_code(self),
    {
        match self {
            Color::Reset => HL_RESET,
            Color::BoldWhite => HL_BOLD_WHITE,
            Color::Yellow => HL_YELLOW,
            Color::Green => HL_GREEN,
            Color::Cyan => HL_CYAN,
            Color::Magenta => HL_MAGENTA,
        }
    }
}

// ---------------------------------------------------------------------------
// Where tokens end
// ---------------------------------------------------------------------------

/// The characters that end a word.
pub open spec fn ends_word(ch: char) -> bool {
    ||| ch == ' '
    ||| ch == '\t'
    ||| ch == '|'
    ||| ch == ';'
    ||| ch == '&'
    ||| ch == '>'
    ||| ch == '<'
    ||| ch == '"'
    ||| ch == '\''
    ||| ch == '$'
}

/// The end of the word that reaches from `i` on.
pub open spec fn word_end(text: Seq<char>, i: int) -> int
    decreases text.len() - i,
{
    if i >= text.len() {
        text.len() as int
    } else if ends_word(text[i]) {
        i
    } else {
        word_end(text, i + 1)
    }
}

/// The end of the flag that reaches from `i` on; an equals sign belongs to it.
pub open spec fn flag_end(text: Seq<char>, i: int) -> int
    decreases text.len() - i,
{
    if i >= text.len() {
        text.len() as int
    } else if text[i] == '=' {
        i + 1
    } else if text[i] == ' ' || text[i] == '\t' {
        i
    } else {
        flag_end(text, i + 1)
    }
}

/// The end of the quotation whose inside starts at `i`. The closing quote belongs to it; in
/// double quotes a backslash hides the character behind it.
pub open spec fn quote_end(text: Seq<char>, quote: char, i: int) -> int
    decreases text.len() + 1 - i,
{
    if i >= text.len() {
        text.len() as int
    } else if text[i] == quote {
        i + 1
    } else if text[i] == '\\' && quote == '"' {
        quote_end(text, quote, i + 2)
    } else {
        quote_end(text, quote, i + 1)
    }
}

/// The end of the variable name that reaches from `i` on; `alnum` marks the alphanumeric
/// characters.
pub open spec fn name_end(text: Seq<char>, alnum: Seq<bool>, i: int) -> int
    decreases text.len() - i,
{
    if i >= text.len() {
        text.len() as int
    } else if alnum[i] || text[i] == '_' {
        name_end(text, alnum, i + 1)
    } else {
        i
    }
}

/// The end of the variable whose dollar sign stands before `i`: up to the closing brace of
/// `${..}`, the parenthesis of `$(`, or the name.
pub open spec fn variable_end(text: Seq<char>, alnum: Seq<bool>, i: int) -> int {
    if i < text.len() && text[i] == '{' {
        let close = find_char(text, '}', i);
        if close < text.len() {
            close + 1
        } else {
            close
        }
    } else if i < text.len() && text[i] == '(' {
        i + 1
    } else {
        name_end(text, alnum, i)
    }
}

/// A token: where it ends, its colour, and whether a command word is still to come after it.
pub struct Token {
    pub end: int,
    pub color: Color,
    pub first: bool,
}

/// The token that starts at `i`, where `first` says whether a command word is still to come.
pub open spec fn token_at(text: Seq<char>, alnum: Seq<bool>, i: int, first: bool) -> Token {
    let ch = text[i];
    let next_is = |c: char| i + 1 < text.len() && text[i + 1] == c;
    let after_blank = i == 0 || text[i - 1] == ' ' || text[i - 1] == '\t';
    if ch == ' ' || ch == '\t' {
        Token { end: i + 1, color: Color::Reset, first }
    } else if ch == '|' || ch == ';' {
        Token { end: i + 1, color: Color::Cyan, first: true }
    } else if ch == '&' {
        Token {
            end: if next_is('&') {
                i + 2
            } else {
                i + 1
            },
            color: Color::Cyan,
            first: true,
        }
    } else if ch == '>' || ch == '<' {
        Token {
            end: if next_is('>') || next_is('&') {
                i + 2
            } else {
                i + 1
            },
            color: Color::Cyan,
            first,
        }
    } else if ch == '"' || ch == '\'' {
        Token { end: quote_end(text, ch, i + 1), color: Color::Green, first: false }
    } else if ch == '$' {
        Token { end: variable_end(text, alnum, i + 1), color: Color::Magenta, first: false }
    } else if ch == '-' && after_blank {
        Token { end: flag_end(text, i), color: Color::Yellow, first: false }
    } else if ch == '#' && (i == 0 || text[i - 1] == ' ') {
        Token { end: text.len() as int, color: Color::Green, first }
    } else {
        Token {
            end: word_end(text, i),
            color: if first {
                Color::BoldWhite
            } else {
                Color::Reset
            },
            first: false,
        }
    }
}

/// `n` times the same colour.
pub open spec fn band(color: Color, n: int) -> Seq<Color> {
    Seq::new(n as nat, |k: int| color)
}

/// The colours of the characters of `text` from `i` on, token by token.
pub open spec fn painted(text: Seq<char>, alnum: Seq<bool>, i: int, first: bool) -> Seq<Color>
    decreases text.len() - i,
{
    if i >= text.len() {
        Seq::empty()
    } else {
        let token = token_at(text, alnum, i, first);
        if i < token.end <= text.len() {
            band(token.color, token.end - i) + painted(text, alnum, token.end, token.first)
        } else {
            Seq::empty()
        }
    }
}

/// Which characters of `text` are letters or numbers.
pub open spec fn alnum_marks(text: Seq<char>) -> Seq<bool> {
    text.map_values(|ch: char| letter_or_number(ch))
}

// ---------------------------------------------------------------------------
// Finding the ends
// ---------------------------------------------------------------------------

fn is_word_end(ch: char) -> (result: bool)
    ensures
        result == ends_word(ch),
{
    ch == ' ' || ch == '\t' || ch == '|' || ch == ';' || ch == '&' || ch == '>' || ch == '<' || ch
        == '"' || ch == '\'' || ch == '$'
}

fn find_word_end(text: &Vec<char>, i: usize) -> (end: usize)
    requires
        i <= text@.len(),
    ensures
        end == word_end(text@, i as int),
        i <= end <= text@.len(),
        i < text@.len() && !ends_word(text@[i as int]) ==> i < end,
{
    let mut j: usize = i;
    while j < text.len() && !is_word_end(text[j])
        invariant
            i <= j <= text@.len(),
            word_end(text@, i as int) == word_end(text@, j as int),
        decreases text@.len() - j,
    {
        j += 1;
    }
    j
}

fn find_flag_end(text: &Vec<char>, i: usize) -> (end: usize)
    requires
        i <= text@.len(),
    ensures
        end == flag_end(text@, i as int),
        i <= end <= text@.len(),
        i < text@.len() && text@[i as int] == '-' ==> i < end,
{
    let mut j: usize = i;
    while j < text.len() && text[j] != ' ' && text[j] != '\t' && text[j] != '='
        invariant
            i <= j <= text@.len(),
            flag_end(text@, i as int) == flag_end(text@, j as int),
        decreases text@.len() - j,
    {
        j += 1;
    }
    if j < text.len() && text[j] == '=' {
        j + 1
    } else {
        j
    }
}

fn find_quote_end(text: &Vec<char>, quote: char, i: usize) -> (end: usize)
    requires
        i <= text@.len(),
    ensures
        end == quote_end(text@, quote, i as int),
        i <= end <= text@.len(),
{
    let mut j: usize = i;
    while j < text.len() && text[j] != quote
        invariant
            i <= j <= text@.len(),
            quote_end(text@, quote, i as int) == quote_end(text@, quote, j as int),
        decreases text@.len() - j,
    {
        if text[j] == '\\' && quote == '"' && j + 1 < text.len() {
            j += 2;
        } else {
            assert(j + 1 == text@.len() ==> quote_end(text@, quote, j + 2) == quote_end(
                text@,
                quote,
                j + 1,
            ));
            j += 1;
        }
    }
    if j < text.len() {
        j + 1
    } else {
        j
    }
}

fn find_name_end(text: &Vec<char>, alnum: &Vec<bool>, i: usize) -> (end: usize)
    requires
        i <= text@.len(),
        alnum@.len() == text@.len(),
    ensures
        end == name_end(text@, alnum@, i as int),
        i <= end <= text@.len(),
{
    let mut j: usize = i;
    while j < text.len() && (alnum[j] || text[j] == '_')
        invariant
            i <= j <= text@.len(),
            alnum@.len() == text@.len(),
            name_end(text@, alnum@, i as int) == name_end(text@, alnum@, j as int),
        decreases text@.len() - j,
    {
        j += 1;
    }
    j
}

fn find_variable_end(text: &Vec<char>, alnum: &Vec<bool>, i: usize) -> (end: usize)
    requires
        i <= text@.len(),
        alnum@.len() == text@.len(),
    ensures
        end == variable_end(text@, alnum@, i as int),
        i <= end <= text@.len(),
{
    if i < text.len() && text[i] == '{' {
        let close = position_of(text, '}', i);
        if close < text.len() {
            close + 1
        } else {
            close
        }
    } else if i < text.len() && text[i] == '(' {
        i + 1
    } else {
        find_name_end(text, alnum, i)
    }
}

/// Extends `colors` to the length `end` with `color`.
fn paint_to(colors: &mut Vec<Color>, end: usize, color: Color)
    requires
        old(colors)@.len() <= end,
    ensures
        final(colors)@ == old(colors)@ + band(color, end - old(colors)@.len()),
{
    let ghost start = colors@;
    while colors.len() < end
        invariant
            start.len() <= colors@.len() <= end,
            colors@ == start + band(color, colors@.len() - start.len()),
        decreases end - colors@.len(),
    {
        let ghost n = colors@.len() - start.len();
        colors.push(color);
        assert(band(color, n + 1) =~= band(color, n).push(color));
        assert(colors@ =~= start + band(color, n + 1));
    }
}

/// The colour of each character of `chars`, given which of them are alphanumeric.
pub fn highlight_chars(chars: &Vec<char>, alnum: &Vec<bool>) -> (colors: Vec<Color>)
    requires
        alnum@.len() == chars@.len(),
    ensures
        colors@ == painted(chars@, alnum@, 0, true),
        colors@.len() == chars@.len(),
{
    let mut colors: Vec<Color> = Vec::new();
    let mut i: usize = 0;
    let mut first = true;
    assert(colors@ + painted(chars@, alnum@, 0, true) =~= painted(chars@, alnum@, 0, true));
    while i < chars.len()
        invariant
            i <= chars@.len(),
            alnum@.len() == chars@.len(),
            colors@.len() == i,
            painted(chars@, alnum@, 0, true) == colors@ + painted(
                chars@,
                alnum@,
                i as int,
                first,
            ),
        decreases chars@.len() - i,
    {
        let ch = chars[i];
        let end: usize;
        let color: Color;
        let ghost token = token_at(chars@, alnum@, i as int, first);
        let ghost start = i as int;
        let ghost done = colors@;
        if ch == ' ' || ch == '\t' {
            end = i + 1;
            color = Color::Reset;
        } else if ch == '|' || ch == ';' {
            end = i + 1;
            color = Color::Cyan;
            first = true;
        } else if ch == '&' {
            end = if i + 1 < chars.len() && chars[i + 1] == '&' {
                i + 2
            } else {
                i + 1
            };
            color = Color::Cyan;
            first = true;
        } else if ch == '>' || ch == '<' {
            end = if i + 1 < chars.len() && (chars[i + 1] == '>' || chars[i + 1] == '&') {
                i + 2
            } else {
                i + 1
            };
            color = Color::Cyan;
        } else if ch == '"' || ch == '\'' {
            end = find_quote_end(chars, ch, i + 1);
            color = Color::Green;
            first = false;
        } else if ch == '$' {
            end = find_variable_end(chars, alnum, i + 1);
            color = Color::Magenta;
            first = false;
        } else if ch == '-' && (i == 0 || chars[i - 1] == ' ' || chars[i - 1] == '\t') {
            end = find_flag_end(chars, i);
            color = Color::Yellow;
            first = false;
        } else if ch == '#' && (i == 0 || chars[i - 1] == ' ') {
            end = chars.len();
            color = Color::Green;
        } else {
            end = find_word_end(chars, i);
            color = if first {
                Color::BoldWhite
            } else {
                Color::Reset
            };
            first = false;
        }
        assert(token.end == end && token.color == color && token.first == first);
        paint_to(&mut colors, end, color);
        i = end;
        assert(done + (band(color, end - start) + painted(chars@, alnum@, end as int, first))
            =~= colors@ + painted(chars@, alnum@, end as int, first));
    }
    assert(colors@ + painted(chars@, alnum@, i as int, first) =~= colors@);
    colors
}

/// The characters of a command, each with the escape sequence of its colour.
pub fn highlight_command(text: &str) -> (tokens: Vec<(char, &'static str)>)
    ensures
        tokens@.len() == text@.len(),
        forall|i: int|
            0 <= i < text@.len() ==> (#[trigger] tokens@[i]).0 == text@[i] && tokens@[i].1@
                == color_code(painted(text@, alnum_marks(text@), 0, true)[i]),
        painted(text@, alnum_marks(text@), 0, true).len() == text@.len(),
{
    let chars = chars_of(text);
    let mut alnum: Vec<bool> = Vec::new();
    let mut i: usize = 0;
    while i < chars.len()
        invariant
            i <= chars@.len(),
            chars@ == text@,
            alnum@ == alnum_marks(text@).take(i as int),
        decreases chars@.len() - i,
    {
        alnum.push(is_alphanumeric(chars[i]));
        assert(alnum@ =~= alnum_marks(text@).take(i + 1));
        i += 1;
    }
    assert(alnum@ =~= alnum_marks(text@));
    let colors = highlight_chars(&chars, &alnum);
    let mut tokens: Vec<(char, &'static str)> = Vec::new();
    let mut i: usize = 0;
    while i < chars.len()
        invariant
            i <= chars@.len(),
            chars@ == text@,
            colors@.len() == chars@.len(),
            tokens@.len() == i,
            forall|k: int|
                0 <= k < i ==> (#[trigger] tokens@[k]).0 == text@[k] && tokens@[k].1@
                    == color_code(colors@[k]),
        decreases chars@.len() - i,
    {
        tokens.push((chars[i], colors[i].code()));
        i += 1;
    }
    tokens
}


// ---------------------------------------------------------------------------
// Laws
// ---------------------------------------------------------------------------

proof fn lemma_word_end(text: Seq<char>, i: int)
    requires
        0 <= i <= text.len(),
    ensures
        i <= word_end(text, i) <= text.len(),
    decreases text.len() - i,
{
    if i < text.len() && !ends_word(text[i]) {
        lemma_word_end(text, i + 1);
    }
}

proof fn lemma_flag_end(text: Seq<char>, i: int)
    requires
        0 <= i <= text.len(),
    ensures
        i <= flag_end(text, i) <= text.len(),
    decreases text.len() - i,
{
    if i < text.len() && text[i] != '=' && text[i] != ' ' && text[i] != '\t' {
        lemma_flag_end(text, i + 1);
    }
}

proof fn lemma_quote_end(text: Seq<char>, quote: char, i: int)
    requires
        0 <= i,
    ensures
        quote_end(text, quote, i) <= text.len(),
        i <= text.len() ==> i <= quote_end(text, quote, i),
        i > text.len() ==> quote_end(text, quote, i) == text.len(),
    decreases text.len() + 1 - i,
{
    if i < text.len() && text[i] != quote {
        if text[i] == '\\' && quote == '"' {
            lemma_quote_end(text, quote, i + 2);
        } else {
            lemma_quote_end(text, quote, i + 1);
        }
    }
}

proof fn lemma_name_end(text: Seq<char>, alnum: Seq<bool>, i: int)
    requires
        0 <= i <= text.len(),
    ensures
        i <= name_end(text, alnum, i) <= text.len(),
    decreases text.len() - i,
{
    if i < text.len() && (alnum[i] || text[i] == '_') {
        lemma_name_end(text, alnum, i + 1);
    }
}

/// A token takes up at least one character and ends within the text.
proof fn lemma_token(text: Seq<char>, alnum: Seq<bool>, i: int, first: bool)
    requires
        0 <= i < text.len(),
    ensures
        i < token_at(text, alnum, i, first).end <= text.len(),
{
    lemma_quote_end(text, text[i], i + 1);
    lemma_name_end(text, alnum, i + 1);
    if i + 1 < text.len() {
        lemma_find_char(text, '}', i + 1);
    }
    if text[i] == '-' {
        lemma_flag_end(text, i + 1);
    }
    lemma_word_end(text, i);
    if !ends_word(text[i]) {
        lemma_word_end(text, i + 1);
    }
}

/// Every character has a colour.
proof fn lemma_painted_len(text: Seq<char>, alnum: Seq<bool>, i: int, first: bool)
    requires
        0 <= i <= text.len(),
    ensures
        painted(text, alnum, i, first).len() == text.len() - i,
    decreases text.len() - i,
{
    if i < text.len() {
        lemma_token(text, alnum, i, first);
        let token = token_at(text, alnum, i, first);
        lemma_painted_len(text, alnum, token.end, token.first);
    }
}

proof fn lemma_word_end_grows(text: Seq<char>, more: Seq<char>, i: int)
    requires
        0 <= i <= text.len(),
    ensures
        word_end(text, i) < text.len() ==> word_end(text + more, i) == word_end(text, i),
        word_end(text, i) == text.len() ==> word_end(text + more, i) >= text.len(),
    decreases text.len() - i,
{
    lemma_word_end(text + more, i);
    lemma_word_end(text, i);
    if i < text.len() {
        assert((text + more)[i] == text[i]);
        if !ends_word(text[i]) {
            lemma_word_end_grows(text, more, i + 1);
        }
    }
}

proof fn lemma_flag_end_grows(text: Seq<char>, more: Seq<char>, i: int)
    requires
        0 <= i <= text.len(),
    ensures
        flag_end(text, i) < text.len() ==> flag_end(text + more, i) == flag_end(text, i),
        flag_end(text, i) == text.len() ==> flag_end(text + more, i) >= text.len(),
    decreases text.len() - i,
{
    lemma_flag_end(text + more, i);
    lemma_flag_end(text, i);
    if i < text.len() {
        assert((text + more)[i] == text[i]);
        if text[i] != '=' && text[i] != ' ' && text[i] != '\t' {
            lemma_flag_end_grows(text, more, i + 1);
        }
    }
}

proof fn lemma_quote_end_grows(text: Seq<char>, more: Seq<char>, quote: char, i: int)
    requires
        0 <= i,
    ensures
        quote_end(text, quote, i) < text.len() ==> quote_end(text + more, quote, i) == quote_end(
            text,
            quote,
            i,
        ),
        quote_end(text, quote, i) == text.len() ==> quote_end(text + more, quote, i) >= text.len(),
    decreases text.len() + 1 - i,
{
    lemma_quote_end(text + more, quote, i);
    lemma_quote_end(text, quote, i);
    if i < text.len() {
        assert((text + more)[i] == text[i]);
        if text[i] != quote {
            if text[i] == '\\' && quote == '"' {
                lemma_quote_end_grows(text, more, quote, i + 2);
            } else {
                lemma_quote_end_grows(text, more, quote, i + 1);
            }
        }
    }
}

proof fn lemma_name_end_grows(
    text: Seq<char>,
    alnum: Seq<bool>,
    more: Seq<char>,
    marks: Seq<bool>,
    i: int,
)
    requires
        0 <= i <= text.len(),
        alnum.len() == text.len(),
    ensures
        name_end(text, alnum, i) < text.len() ==> name_end(text + more, alnum + marks, i)
            == name_end(text, alnum, i),
        name_end(text, alnum, i) == text.len() ==> name_end(text + more, alnum + marks, i)
            >= text.len(),
    decreases text.len() - i,
{
    lemma_name_end(text + more, alnum + marks, i);
    lemma_name_end(text, alnum, i);
    if i < text.len() {
        assert((text + more)[i] == text[i]);
        assert((alnum + marks)[i] == alnum[i]);
        if alnum[i] || text[i] == '_' {
            lemma_name_end_grows(text, alnum, more, marks, i + 1);
        }
    }
}

/// A longer text has the same token at the same place, unless the token reached to the end; then
/// it has the same colour there and may reach further.
proof fn lemma_token_grows(
    text: Seq<char>,
    alnum: Seq<bool>,
    more: Seq<char>,
    marks: Seq<bool>,
    i: int,
    first: bool,
)
    requires
        0 <= i < text.len(),
        alnum.len() == text.len(),
    ensures
        ({
            let short = token_at(text, alnum, i, first);
            let long = token_at(text + more, alnum + marks, i, first);
            &&& long.color == short.color
            &&& short.end < text.len() ==> long == short
            &&& short.end == text.len() ==> long.end >= text.len()
        }),
{
    let whole = text + more;
    assert(whole[i] == text[i]);
    assert(i > 0 ==> whole[i - 1] == text[i - 1]);
    assert(i + 1 < text.len() ==> whole[i + 1] == text[i + 1]);
    lemma_token(text, alnum, i, first);
    lemma_token(whole, alnum + marks, i, first);
    lemma_word_end_grows(text, more, i);
    lemma_flag_end_grows(text, more, i);
    lemma_quote_end_grows(text, more, text[i], i + 1);
    lemma_name_end_grows(text, alnum, more, marks, i + 1);
    lemma_find_char_grows(text, more, '}', i + 1);
}

proof fn lemma_painted_grows(
    text: Seq<char>,
    alnum: Seq<bool>,
    more: Seq<char>,
    marks: Seq<bool>,
    i: int,
    first: bool,
)
    requires
        0 <= i <= text.len(),
        alnum.len() == text.len(),
    ensures
        painted(text + more, alnum + marks, i, first).take(text.len() - i) == painted(
            text,
            alnum,
            i,
            first,
        ),
    decreases text.len() - i,
{
    let whole = text + more;
    let all = alnum + marks;
    lemma_painted_len(whole, all, i, first);
    lemma_painted_len(text, alnum, i, first);
    if i < text.len() {
        let short = token_at(text, alnum, i, first);
        let long = token_at(whole, all, i, first);
        lemma_token(text, alnum, i, first);
        lemma_token(whole, all, i, first);
        lemma_token_grows(text, alnum, more, marks, i, first);
        lemma_painted_len(whole, all, long.end, long.first);
        lemma_painted_len(text, alnum, short.end, short.first);
        if short.end < text.len() {
            lemma_painted_grows(text, alnum, more, marks, short.end, short.first);
            let rest = painted(whole, all, long.end, long.first);
            assert((band(long.color, long.end - i) + rest).take(text.len() - i) =~= band(
                long.color,
                long.end - i,
            ) + rest.take(text.len() - long.end));
        }
    }
    assert(painted(whole, all, i, first).take(text.len() - i) =~= painted(text, alnum, i, first));
}

/// Typing on never changes the colours of what is typed already.
pub proof fn law_appending_keeps_colours(text: Seq<char>, more: Seq<char>)
    ensures
        painted(text + more, alnum_marks(text + more), 0, true).take(text.len() as int) == painted(
            text,
            alnum_marks(text),
            0,
            true,
        ),
{
    assert(alnum_marks(text + more) =~= alnum_marks(text) + alnum_marks(more));
    lemma_painted_grows(text, alnum_marks(text), more, alnum_marks(more), 0, true);
}

proof fn lemma_ends_shift(text: Seq<char>, alnum: Seq<bool>, k: int, i: int, ch: char)
    requires
        0 <= k <= text.len(),
        0 <= i,
        alnum.len() == text.len(),
    ensures
        k + i <= text.len() ==> {
            &&& word_end(text, k + i) == k + word_end(text.skip(k), i)
            &&& flag_end(text, k + i) == k + flag_end(text.skip(k), i)
            &&& name_end(text, alnum, k + i) == k + name_end(text.skip(k), alnum.skip(k), i)
            &&& find_char(text, ch, k + i) == k + find_char(text.skip(k), ch, i)
        },
        quote_end(text, ch, k + i) == k + quote_end(text.skip(k), ch, i),
    decreases text.len() + 2 - (k + i),
{
    if k + i < text.len() {
        assert(text.skip(k)[i] == text[k + i]);
        assert(alnum.skip(k)[i] == alnum[k + i]);
        lemma_ends_shift(text, alnum, k, i + 1, ch);
        lemma_ends_shift(text, alnum, k, i + 2, ch);
    }
}

/// Behind a blank, a token is what it would be at the start of a text.
proof fn lemma_token_shift(text: Seq<char>, alnum: Seq<bool>, k: int, i: int, first: bool)
    requires
        0 < k,
        0 <= i,
        k + i < text.len(),
        text[k - 1] == ' ',
        alnum.len() == text.len(),
    ensures
        ({
            let here = token_at(text, alnum, k + i, first);
            let there = token_at(text.skip(k), alnum.skip(k), i, first);
            &&& here.color == there.color
            &&& here.first == there.first
            &&& here.end == k + there.end
        }),
{
    let rest = text.skip(k);
    assert(rest[i] == text[k + i]);
    assert(i > 0 ==> rest[i - 1] == text[k + i - 1]);
    assert(k + i + 1 < text.len() ==> rest[i + 1] == text[k + i + 1]);
    lemma_ends_shift(text, alnum, k, i, text[k + i]);
    lemma_ends_shift(text, alnum, k, i + 1, text[k + i]);
    lemma_ends_shift(text, alnum, k, i + 1, '}');
}

proof fn lemma_painted_shift(text: Seq<char>, alnum: Seq<bool>, k: int, i: int, first: bool)
    requires
        0 < k <= text.len(),
        0 <= i,
        k + i <= text.len(),
        text[k - 1] == ' ',
        alnum.len() == text.len(),
    ensures
        painted(text, alnum, k + i, first) == painted(text.skip(k), alnum.skip(k), i, first),
    decreases text.len() - (k + i),
{
    if k + i < text.len() {
        let here = token_at(text, alnum, k + i, first);
        let there = token_at(text.skip(k), alnum.skip(k), i, first);
        lemma_token(text, alnum, k + i, first);
        lemma_token_shift(text, alnum, k, i, first);
        lemma_painted_shift(text, alnum, k, there.end, there.first);
    }
}

/// Whether a command word is still to come at position `at`, where a token starts there; nothing
/// where none does. The tokens are read from `i` on.
pub open spec fn scan(text: Seq<char>, alnum: Seq<bool>, i: int, first: bool, at: int) -> Option<
    bool,
>
    decreases at - i,
{
    if i == at {
        Some(first)
    } else if i > at || i >= text.len() {
        None
    } else {
        let token = token_at(text, alnum, i, first);
        if i < token.end <= at {
            scan(text, alnum, token.end, token.first, at)
        } else {
            None
        }
    }
}

proof fn lemma_scan(text: Seq<char>, alnum: Seq<bool>, i: int, first: bool, at: int)
    requires
        0 <= i <= at <= text.len(),
        scan(text, alnum, i, first, at) is Some,
    ensures
        painted(text, alnum, i, first) == painted(text, alnum, i, first).take(at - i) + painted(
            text,
            alnum,
            at,
            scan(text, alnum, i, first, at)->0,
        ),
    decreases at - i,
{
    lemma_painted_len(text, alnum, i, first);
    let all = painted(text, alnum, i, first);
    if i < at {
        let token = token_at(text, alnum, i, first);
        lemma_token(text, alnum, i, first);
        lemma_painted_len(text, alnum, token.end, token.first);
        let rest = painted(text, alnum, token.end, token.first);
        let end = painted(text, alnum, at, scan(text, alnum, i, first, at)->0);
        lemma_scan(text, alnum, token.end, token.first, at);
        assert(all.take(at - i) =~= band(token.color, token.end - i) + rest.take(at - token.end));
        assert(all =~= all.take(at - i) + end);
    } else {
        assert(all.take(0) + all =~= all);
    }
}

/// Commands joined by a semicolon or a pipe and a blank are coloured one by one, where the
/// operator is read as one: not inside quotes, a variable, a flag or a comment.
pub proof fn law_commands_are_coloured_one_by_one(left: Seq<char>, op: char, right: Seq<char>)
    requires
        op == ';' || op == '|',
        ({
            let whole = left + seq![op, ' '] + right;
            scan(whole, alnum_marks(whole), 0, true, left.len() as int) is Some
        }),
    ensures
        ({
            let whole = left + seq![op, ' '] + right;
            painted(whole, alnum_marks(whole), 0, true) == painted(
                left,
                alnum_marks(left),
                0,
                true,
            ) + seq![Color::Cyan, Color::Reset] + painted(right, alnum_marks(right), 0, true)
        }),
{
    let tail = seq![op, ' '] + right;
    let whole = left + seq![op, ' '] + right;
    let alnum = alnum_marks(whole);
    let at = left.len() as int;
    assert(whole =~= left + tail);
    law_appending_keeps_colours(left, tail);
    lemma_scan(whole, alnum, 0, true, at);
    let first = scan(whole, alnum, 0, true, at)->0;
    assert(whole[at] == op);
    assert(whole[at + 1] == ' ');
    assert(whole.skip(at + 2) =~= right);
    assert(alnum.skip(at + 2) =~= alnum_marks(right));
    lemma_painted_shift(whole, alnum, at + 2, 0, true);
    let rest = painted(right, alnum_marks(right), 0, true);
    let blank = token_at(whole, alnum, at + 1, true);
    let operator = token_at(whole, alnum, at, first);
    assert(operator.end == at + 1 && operator.color == Color::Cyan && operator.first);
    assert(blank.end == at + 2 && blank.color == Color::Reset && blank.first);
    assert(painted(whole, alnum, at + 1, true) =~= seq![Color::Reset] + rest);
    assert(painted(whole, alnum, at, first) =~= seq![Color::Cyan, Color::Reset] + rest);
    assert(painted(whole, alnum, 0, true) =~= painted(left, alnum_marks(left), 0, true)
        + seq![Color::Cyan, Color::Reset] + rest);
}

// ---------------------------------------------------------------------------
// What tokens there are
// ---------------------------------------------------------------------------

/// The characters of a token have its colour, and behind it the next token starts.
pub proof fn law_tokens_are_painted(text: Seq<char>, alnum: Seq<bool>, i: int, first: bool, j: int)
    requires
        0 <= i < text.len(),
        i <= j < token_at(text, alnum, i, first).end,
    ensures
        ({
            let token = token_at(text, alnum, i, first);
            let colors = painted(text, alnum, i, first);
            &&& colors.len() == text.len() - i
            &&& colors[j - i] == token.color
            &&& colors.skip(token.end - i) == painted(text, alnum, token.end, token.first)
        }),
{
    lemma_token(text, alnum, i, first);
    lemma_painted_len(text, alnum, i, first);
    let token = token_at(text, alnum, i, first);
    lemma_painted_len(text, alnum, token.end, token.first);
    assert(painted(text, alnum, i, first).skip(token.end - i) =~= painted(
        text,
        alnum,
        token.end,
        token.first,
    ));
}

/// White space has no colour and changes nothing. Operators are cyan: a pipe, a semicolon and one
/// or two ampersands start a new command, and redirects, which may be doubled or lead to a file
/// descriptor, do not.
pub proof fn law_operators(text: Seq<char>, alnum: Seq<bool>, i: int, first: bool)
    requires
        0 <= i < text.len(),
    ensures
        ({
            let token = token_at(text, alnum, i, first);
            let ch = text[i];
            let twice = i + 1 < text.len() && text[i + 1] == ch;
            let next_amp = i + 1 < text.len() && text[i + 1] == '&';
            let next_gt = i + 1 < text.len() && text[i + 1] == '>';
            &&& ch == ' ' || ch == '\t' ==> token == (Token {
                end: i + 1,
                color: Color::Reset,
                first,
            })
            &&& ch == '|' || ch == ';' ==> token == (Token {
                end: i + 1,
                color: Color::Cyan,
                first: true,
            })
            &&& ch == '&' ==> token == (Token {
                end: if twice {
                    i + 2
                } else {
                    i + 1
                },
                color: Color::Cyan,
                first: true,
            })
            &&& ch == '>' || ch == '<' ==> token == (Token {
                end: if next_gt || next_amp {
                    i + 2
                } else {
                    i + 1
                },
                color: Color::Cyan,
                first,
            })
        }),
{
}

proof fn lemma_word_ends_at(text: Seq<char>, i: int, end: int)
    requires
        0 <= i <= end <= text.len(),
        forall|j: int| i <= j < end ==> !ends_word(#[trigger] text[j]),
        end < text.len() ==> ends_word(text[end]),
    ensures
        word_end(text, i) == end,
    decreases end - i,
{
    if i < end {
        lemma_word_ends_at(text, i + 1, end);
    }
}

/// A word reaches to the next white space, operator, redirect, quote or dollar sign. The first
/// word of a command is bold and white, other words have no colour.
pub proof fn law_words(text: Seq<char>, alnum: Seq<bool>, i: int, end: int, first: bool)
    requires
        0 <= i < end <= text.len(),
        forall|j: int|
            i <= j < end ==> {
                let c = #[trigger] text[j];
                c != ' ' && c != '\t' && c != '|' && c != ';' && c != '&' && c != '>' && c != '<'
                    && c != '"' && c != '\'' && c != '$'
            },
        end < text.len() ==> {
            let c = text[end];
            c == ' ' || c == '\t' || c == '|' || c == ';' || c == '&' || c == '>' || c == '<' || c
                == '"' || c == '\'' || c == '$'
        },
        text[i] == '-' ==> i > 0 && text[i - 1] != ' ' && text[i - 1] != '\t',
        text[i] == '#' ==> i > 0 && text[i - 1] != ' ',
    ensures
        token_at(text, alnum, i, first) == (Token {
            end,
            color: if first {
                Color::BoldWhite
            } else {
                Color::Reset
            },
            first: false,
        }),
{
    lemma_word_ends_at(text, i, end);
}

proof fn lemma_flag_ends_at(text: Seq<char>, i: int, end: int)
    requires
        0 <= i <= end <= text.len(),
        forall|j: int|
            i <= j < end ==> #[trigger] text[j] != ' ' && text[j] != '\t' && text[j] != '=',
        end < text.len() ==> text[end] == ' ' || text[end] == '\t' || text[end] == '=',
    ensures
        flag_end(text, i) == (if end < text.len() && text[end] == '=' {
            end + 1
        } else {
            end
        }),
    decreases end - i,
{
    if i < end {
        lemma_flag_ends_at(text, i + 1, end);
    }
}

/// A word that starts with a dash is a flag, and yellow. It reaches to the next white space, or
/// to an equals sign, which belongs to it.
pub proof fn law_flags(text: Seq<char>, alnum: Seq<bool>, i: int, end: int, first: bool)
    requires
        0 <= i < end <= text.len(),
        text[i] == '-',
        i == 0 || text[i - 1] == ' ' || text[i - 1] == '\t',
        forall|j: int|
            i <= j < end ==> #[trigger] text[j] != ' ' && text[j] != '\t' && text[j] != '=',
        end < text.len() ==> text[end] == ' ' || text[end] == '\t' || text[end] == '=',
    ensures
        token_at(text, alnum, i, first) == (Token {
            end: if end < text.len() && text[end] == '=' {
                end + 1
            } else {
                end
            },
            color: Color::Yellow,
            first: false,
        }),
{
    lemma_flag_ends_at(text, i, end);
}

proof fn lemma_quote_ends_at(text: Seq<char>, quote: char, i: int, end: int)
    requires
        0 <= i <= end <= text.len(),
        forall|j: int| i <= j < end ==> #[trigger] text[j] != quote,
        quote == '"' ==> forall|j: int| i <= j < end ==> #[trigger] text[j] != '\\',
        end < text.len() ==> text[end] == quote,
    ensures
        quote_end(text, quote, i) == (if end < text.len() {
            end + 1
        } else {
            end
        }),
    decreases end - i,
{
    if i < end {
        lemma_quote_ends_at(text, quote, i + 1, end);
    }
}

/// A quotation is green and reaches to the closing quote, or to the end where there is none.
pub proof fn law_quotations(text: Seq<char>, alnum: Seq<bool>, i: int, end: int, first: bool)
    requires
        0 <= i < end <= text.len(),
        text[i] == '"' || text[i] == '\'',
        forall|j: int| i < j < end ==> #[trigger] text[j] != text[i],
        text[i] == '"' ==> forall|j: int| i < j < end ==> #[trigger] text[j] != '\\',
        end < text.len() ==> text[end] == text[i],
    ensures
        token_at(text, alnum, i, first) == (Token {
            end: if end < text.len() {
                end + 1
            } else {
                end
            },
            color: Color::Green,
            first: false,
        }),
{
    lemma_quote_ends_at(text, text[i], i + 1, end);
}

/// In double quotes a backslash hides the character behind it; in single quotes it does not.
pub proof fn law_backslashes_in_quotations(text: Seq<char>, i: int)
    requires
        0 <= i,
        i + 1 < text.len(),
        text[i] == '\\',
    ensures
        quote_end(text, '"', i) == quote_end(text, '"', i + 2),
        quote_end(text, '\'', i) == quote_end(text, '\'', i + 1),
{
}

proof fn lemma_name_ends_at(text: Seq<char>, alnum: Seq<bool>, i: int, end: int)
    requires
        0 <= i <= end <= text.len(),
        forall|j: int| i <= j < end ==> alnum[j] || #[trigger] text[j] == '_',
        end < text.len() ==> !alnum[end] && text[end] != '_',
    ensures
        name_end(text, alnum, i) == end,
    decreases end - i,
{
    if i < end {
        lemma_name_ends_at(text, alnum, i + 1, end);
    }
}

/// A dollar sign and the letters, numbers and underscores behind it are a variable, and magenta.
pub proof fn law_variables(text: Seq<char>, alnum: Seq<bool>, i: int, end: int, first: bool)
    requires
        0 <= i < end <= text.len(),
        text[i] == '$',
        forall|j: int| i < j < end ==> alnum[j] || #[trigger] text[j] == '_',
        end < text.len() ==> !alnum[end] && text[end] != '_',
        i + 1 < text.len() ==> text[i + 1] != '{' && text[i + 1] != '(',
    ensures
        token_at(text, alnum, i, first) == (Token { end, color: Color::Magenta, first: false }),
{
    lemma_name_ends_at(text, alnum, i + 1, end);
}

proof fn lemma_brace_at(text: Seq<char>, i: int, end: int)
    requires
        0 <= i <= end <= text.len(),
        forall|j: int| i <= j < end ==> #[trigger] text[j] != '}',
        end < text.len() ==> text[end] == '}',
    ensures
        find_char(text, '}', i) == end,
    decreases end - i,
{
    if i < end {
        lemma_brace_at(text, i + 1, end);
    }
}

/// A variable in braces reaches to the closing brace, or to the end where there is none; of a
/// command in parentheses only the dollar sign and the opening one are coloured as a variable.
pub proof fn law_braced_variables(
    text: Seq<char>,
    alnum: Seq<bool>,
    i: int,
    end: int,
    first: bool,
)
    requires
        0 <= i,
        i + 1 < text.len(),
        text[i] == '$',
        text[i + 1] == '{' || text[i + 1] == '(',
        i + 1 <= end <= text.len(),
        forall|j: int| i < j < end ==> #[trigger] text[j] != '}',
        end < text.len() ==> text[end] == '}',
    ensures
        text[i + 1] == '{' ==> token_at(text, alnum, i, first) == (Token {
            end: if end < text.len() {
                end + 1
            } else {
                end
            },
            color: Color::Magenta,
            first: false,
        }),
        text[i + 1] == '(' ==> token_at(text, alnum, i, first) == (Token {
            end: i + 2,
            color: Color::Magenta,
            first: false,
        }),
{
    lemma_brace_at(text, i + 1, end);
}

/// A hash sign at the start or behind a blank starts a comment, which is green to the end.
pub proof fn law_shell_comments(text: Seq<char>, alnum: Seq<bool>, i: int, first: bool)
    requires
        0 <= i < text.len(),
        text[i] == '#',
        i == 0 || text[i - 1] == ' ',
    ensures
        token_at(text, alnum, i, first).end == text.len(),
        token_at(text, alnum, i, first).color == Color::Green,
{
}

/// Letters and digits count for names, and no other ASCII character.
pub proof fn law_ascii_names(text: Seq<char>, i: int)
    requires
        0 <= i < text.len(),
        (text[i] as u32) < 0x80,
    ensures
        alnum_marks(text)[i] == ('a' <= text[i] <= 'z' || 'A' <= text[i] <= 'Z' || '0' <= text[i]
            <= '9'),
        alnum_marks(text).len() == text.len(),
{
}

/// The colours of a command are those of the placeholders with their names. Bold white is bold
/// and white at once.
pub proof fn law_command_colours_are_those_of_placeholders(k: int)
    requires
        0 <= k < color_codes().len(),
    ensures
        ({
            let (name, code) = color_codes()[k];
            &&& name == "{reset}"@ ==> color_code(Color::Reset) == code
            &&& name == "{yellow}"@ ==> color_code(Color::Yellow) == code
            &&& name == "{green}"@ ==> color_code(Color::Green) == code
            &&& name == "{cyan}"@ ==> color_code(Color::Cyan) == code
            &&& name == "{magenta}"@ ==> color_code(Color::Magenta) == code
        }),
        color_code(Color::BoldWhite) == "\x1B[1;37m"@,
{
    lemma_table_texts();
    reveal_strlit("\x1B[1;37m");
    let name = color_codes()[k].0;
    assert(name == "{reset}"@ ==> k == 10) by {
        assert(name[1] == 'r' && name[3] == 's' ==> k == 10);
    }
    assert(name == "{yellow}"@ ==> k == 3) by {
        assert(name[1] == 'y' ==> k == 3);
    }
    assert(name == "{green}"@ ==> k == 2) by {
        assert(name[1] == 'g' ==> k == 2);
    }
    assert(name == "{cyan}"@ ==> k == 6) by {
        assert(name[1] == 'c' ==> k == 6);
    }
    assert(name == "{magenta}"@ ==> k == 5) by {
        assert(name[1] == 'm' ==> k == 5);
    }
}

}
