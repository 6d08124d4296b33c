//! Text primitives. Specifications treat a text as its sequence of characters.

use vstd::prelude::*;

verus! {

broadcast use vstd::seq::group_seq_axioms;

/// `String::push`: the text grows by the one character given.
pub assume_specification[ String::push ](s: &mut String, ch: char)
    ensures
        final(s)@ == old(s)@.push(ch),
;

// ---------------------------------------------------------------------------
// Conversions and comparison
// ---------------------------------------------------------------------------

/// The characters of `text`, for indexed access.
pub fn chars_of(text: &str) -> (chars: Vec<char>)
    ensures
        chars@ == text@,
{
    let mut chars: Vec<char> = Vec::new();
    for ch in it: text.chars()
        invariant
            chars@ == it.seq().take(it.index()),
            it.seq() == text@,
    {
        chars.push(ch);
    }
    chars
}

/// The text made of `chars[from..to]`.
pub fn string_of(chars: &Vec<char>, from: usize, to: usize) -> (text: String)
    requires
        from <= to <= chars@.len(),
    ensures
        text@ == chars@.subrange(from as int, to as int),
{
    let mut text = String::new();
    let mut i: usize = from;
    while i < to
        invariant
            from <= i <= to <= chars@.len(),
            text@ == chars@.subrange(from as int, i as int),
        decreases to - i,
    {
        text.push(chars[i]);
        i += 1;
    }
    text
}

/// Whether two texts are the same, character by character.
pub fn same_text(a: &str, b: &str) -> (same: bool)
    ensures
        same == (a@ == b@),
{
    a.to_owned() == b.to_owned()
}

/// `head` followed by `tail`.
pub fn join(head: &str, tail: &str) -> (text: String)
    ensures
        text@ == head@ + tail@,
{
    let mut text = head.to_owned();
    text.append(tail);
    text
}

/// A copy of an optional text.
pub fn copy_option(text: &Option<String>) -> (copy: Option<String>)
    ensures
        copy == *text,
{
    match text {
        Some(t) => Some(t.clone()),
        None => None,
    }
}

/// The characters of an optional text.
pub open spec fn option_view(text: Option<String>) -> Option<Seq<char>> {
    match text {
        Some(t) => Some(t@),
        None => None,
    }
}

// ---------------------------------------------------------------------------
// Searching and replacing
// ---------------------------------------------------------------------------

/// `pattern` stands in `text` at position `i`.
pub open spec fn occurs_at(text: Seq<char>, pattern: Seq<char>, i: int) -> bool {
    &&& 0 <= i
    &&& i + pattern.len() <= text.len()
    &&& text.subrange(i, i + pattern.len()) == pattern
}

/// `pattern` stands somewhere in `text`.
pub open spec fn contains_text(text: Seq<char>, pattern: Seq<char>) -> bool {
    exists|i: int| occurs_at(text, pattern, i)
}

/// `text` with every occurrence of the non-empty `from` exchanged for `to`, searching from the
/// left and never looking inside what was already exchanged.
pub open spec fn replace_all(text: Seq<char>, from: Seq<char>, to: Seq<char>) -> Seq<char>
    decreases text.len(),
{
    if text.len() == 0 {
        text
    } else if from.len() > 0 && occurs_at(text, from, 0) {
        to + replace_all(text.skip(from.len() as int), from, to)
    } else {
        seq![text[0]] + replace_all(text.skip(1), from, to)
    }
}

/// `text` after one replacement pass per pair, in the order of the pairs.
pub open spec fn replace_each(text: Seq<char>, pairs: Seq<(Seq<char>, Seq<char>)>) -> Seq<char>
    decreases pairs.len(),
{
    if pairs.len() == 0 {
        text
    } else {
        replace_all(
            replace_each(text, pairs.drop_last()),
            pairs.last().0,
            pairs.last().1,
        )
    }
}

/// Whether `pattern` stands in `text` at position `i`.
fn matches_at(text: &Vec<char>, pattern: &Vec<char>, i: usize) -> (found: bool)
    requires
        i <= text@.len(),
    ensures
        found == occurs_at(text@, pattern@, i as int),
{
    if pattern.len() > text.len() - i {
        return false;
    }
    let mut k: usize = 0;
    while k < pattern.len()
        invariant
            k <= pattern@.len(),
            i + pattern.len() <= text.len(),
            forall|j: int| 0 <= j < k ==> text@[i + j] == pattern@[j],
        decreases pattern@.len() - k,
    {
        if text[i + k] != pattern[k] {
            assert(text@.subrange(i as int, i + pattern@.len())[k as int] != pattern@[k as int]);
            return false;
        }
        k += 1;
    }
    assert(text@.subrange(i as int, i + pattern@.len()) =~= pattern@);
    true
}

/// Whether `pattern` stands somewhere in `text`.
pub fn has_text(text: &str, pattern: &str) -> (found: bool)
    ensures
        found == contains_text(text@, pattern@),
{
    let chars = chars_of(text);
    let wanted = chars_of(pattern);
    let mut i: usize = 0;
    loop
        invariant
            chars@ == text@,
            wanted@ == pattern@,
            i <= chars@.len(),
            forall|j: int| 0 <= j < i ==> !occurs_at(text@, pattern@, j),
        decreases chars@.len() - i,
    {
        if matches_at(&chars, &wanted, i) {
            assert(occurs_at(text@, pattern@, i as int));
            return true;
        }
        if i == chars.len() {
            return false;
        }
        i += 1;
    }
}

/// `text` with every occurrence of `from` exchanged for `to`.
pub fn replace(text: &str, from: &str, to: &str) -> (result: String)
    requires
        from@.len() > 0,
    ensures
        result@ == replace_all(text@, from@, to@),
{
    let chars = chars_of(text);
    let wanted = chars_of(from);
    let mut result = String::new();
    let mut i: usize = 0;
    assert(chars@.skip(0) =~= chars@);
    while i < chars.len()
        invariant
            i <= chars@.len(),
            chars@ == text@,
            wanted@ == from@,
            from@.len() > 0,
            replace_all(text@, from@, to@) == result@ + replace_all(
                chars@.skip(i as int),
                from@,
                to@,
            ),
        decreases chars@.len() - i,
    {
        let ghost rest = chars@.skip(i as int);
        let ghost before = result@;
        if matches_at(&chars, &wanted, i) {
            assert(rest.subrange(0, from@.len() as int) =~= chars@.subrange(
                i as int,
                i + from@.len(),
            ));
            assert(rest.skip(from@.len() as int) =~= chars@.skip(i + from@.len()));
            result.append(to);
            i += wanted.len();
            assert(before + (to@ + replace_all(chars@.skip(i as int), from@, to@)) =~= result@
                + replace_all(chars@.skip(i as int), from@, to@));
        } else {
            proof {
                if occurs_at(rest, from@, 0) {
                    assert(rest.subrange(0, from@.len() as int) =~= chars@.subrange(
                        i as int,
                        i + from@.len(),
                    ));
                }
                assert(rest.skip(1) =~= chars@.skip(i + 1));
            }
            result.push(chars[i]);
            i += 1;
            assert(before + (seq![chars@[i - 1]] + replace_all(chars@.skip(i as int), from@, to@))
                =~= result@ + replace_all(chars@.skip(i as int), from@, to@));
        }
    }
    assert(chars@.skip(i as int).len() == 0);
    assert(result@ + chars@.skip(i as int) =~= result@);
    result
}

/// Replacing what does not occur changes nothing.
pub proof fn lemma_replace_absent(text: Seq<char>, from: Seq<char>, to: Seq<char>)
    requires
        !contains_text(text, from),
    ensures
        replace_all(text, from, to) == text,
    decreases text.len(),
{
    if text.len() > 0 {
        assert(!occurs_at(text, from, 0));
        assert(!contains_text(text.skip(1), from)) by {
            if contains_text(text.skip(1), from) {
                let i = choose|i: int| occurs_at(text.skip(1), from, i);
                assert(text.skip(1).subrange(i, i + from.len()) =~= text.subrange(
                    i + 1,
                    i + 1 + from.len(),
                ));
                assert(occurs_at(text, from, i + 1));
            }
        }
        lemma_replace_absent(text.skip(1), from, to);
        assert(seq![text[0]] + text.skip(1) =~= text);
    }
}

// ---------------------------------------------------------------------------
// White space
// ---------------------------------------------------------------------------

/// The characters with the Unicode property `White_Space`.
pub open spec fn white(ch: char) -> bool {
    ||| '\u{9}' <= ch <= '\u{d}'
    ||| ch == ' '
    ||| ch == '\u{85}'
    ||| ch == '\u{a0}'
    ||| ch == '\u{1680}'
    ||| '\u{2000}' <= ch <= '\u{200a}'
    ||| ch == '\u{2028}'
    ||| ch == '\u{2029}'
    ||| ch == '\u{202f}'
    ||| ch == '\u{205f}'
    ||| ch == '\u{3000}'
}

/// Whether `ch` has the Unicode property `White_Space`.
pub fn is_white(ch: char) -> (result: bool)
    ensures
        result == white(ch),
{
    ('\u{9}' <= ch && ch <= '\u{d}') || ch == ' ' || ch == '\u{85}' || ch == '\u{a0}' || ch
        == '\u{1680}' || ('\u{2000}' <= ch && ch <= '\u{200a}') || ch == '\u{2028}' || ch
        == '\u{2029}' || ch == '\u{202f}' || ch == '\u{205f}' || ch == '\u{3000}'
}

/// Every character of `text` is white space; so is the empty text.
pub open spec fn blank(text: Seq<char>) -> bool {
    forall|i: int| 0 <= i < text.len() ==> white(#[trigger] text[i])
}

/// `text` without leading white space.
pub open spec fn trim_start(text: Seq<char>) -> Seq<char>
    decreases text.len(),
{
    if text.len() > 0 && white(text[0]) {
        trim_start(text.skip(1))
    } else {
        text
    }
}

/// `text` without trailing white space.
pub open spec fn trim_end(text: Seq<char>) -> Seq<char>
    decreases text.len(),
{
    if text.len() > 0 && white(text.last()) {
        trim_end(text.drop_last())
    } else {
        text
    }
}

/// `text` without leading and trailing white space.
pub open spec fn trimmed(text: Seq<char>) -> Seq<char> {
    trim_end(trim_start(text))
}

/// Whether `text` holds white space only.
pub fn is_blank(text: &str) -> (result: bool)
    ensures
        result == blank(text@),
{
    let chars = chars_of(text);
    let mut i: usize = 0;
    while i < chars.len()
        invariant
            i <= chars@.len(),
            chars@ == text@,
            forall|j: int| 0 <= j < i ==> white(#[trigger] chars@[j]),
        decreases chars@.len() - i,
    {
        if !is_white(chars[i]) {
            return false;
        }
        i += 1;
    }
    true
}

/// `text` without leading and trailing white space.
pub fn trim(text: &str) -> (result: String)
    ensures
        result@ == trimmed(text@),
{
    let chars = chars_of(text);
    let mut from: usize = 0;
    assert(chars@.skip(0) =~= chars@);
    while from < chars.len() && is_white(chars[from])
        invariant
            from <= chars@.len(),
            chars@ == text@,
            trim_start(text@) == trim_start(chars@.skip(from as int)),
        decreases chars@.len() - from,
    {
        assert(chars@.skip(from as int).skip(1) =~= chars@.skip(from + 1));
        from += 1;
    }
    let mut to: usize = chars.len();
    assert(chars@.skip(from as int) =~= chars@.subrange(from as int, to as int));
    while from < to && is_white(chars[to - 1])
        invariant
            from <= to <= chars@.len(),
            chars@ == text@,
            trimmed(text@) == trim_end(chars@.subrange(from as int, to as int)),
        decreases to - from,
    {
        assert(chars@.subrange(from as int, to as int).drop_last() =~= chars@.subrange(
            from as int,
            to - 1,
        ));
        to -= 1;
    }
    string_of(&chars, from, to)
}

// ---------------------------------------------------------------------------
// Lines
// ---------------------------------------------------------------------------

/// The first position at or after `i` where `text` holds `ch`, or the length of `text`.
pub open spec fn find_char(text: Seq<char>, ch: char, i: int) -> int
    decreases text.len() - i,
{
    if i >= text.len() {
        text.len() as int
    } else if text[i] == ch {
        i
    } else {
        find_char(text, ch, i + 1)
    }
}

/// `line` without the carriage return that ends it, if one does.
pub open spec fn without_return(line: Seq<char>) -> Seq<char> {
    if line.len() > 0 && line.last() == '\r' {
        line.drop_last()
    } else {
        line
    }
}

/// The lines of `text` from position `i` on. A line ends with a line feed, which a carriage
/// return may precede; after the last line the ending is optional.
pub open spec fn lines_from(text: Seq<char>, i: int) -> Seq<Seq<char>>
    decreases text.len() - i,
{
    if i < 0 || i >= text.len() {
        Seq::empty()
    } else {
        let end = find_char(text, '\n', i);
        if i <= end < text.len() {
            seq![without_return(text.subrange(i, end))] + lines_from(text, end + 1)
        } else {
            seq![text.skip(i)]
        }
    }
}

/// The position found lies in the text, or is its end.
pub proof fn lemma_find_char(text: Seq<char>, ch: char, i: int)
    requires
        0 <= i <= text.len(),
    ensures
        i <= find_char(text, ch, i) <= text.len(),
    decreases text.len() - i,
{
    if i < text.len() && text[i] != ch {
        lemma_find_char(text, ch, i + 1);
    }
}

/// In a longer text the same position is found, unless none was.
pub proof fn lemma_find_char_grows(text: Seq<char>, more: Seq<char>, ch: char, i: int)
    requires
        0 <= i <= text.len(),
    ensures
        find_char(text, ch, i) < text.len() ==> find_char(text + more, ch, i) == find_char(
            text,
            ch,
            i,
        ),
        find_char(text, ch, i) == text.len() ==> find_char(text + more, ch, i) >= text.len(),
    decreases text.len() - i,
{
    lemma_find_char(text + more, ch, i);
    lemma_find_char(text, ch, i);
    if i < text.len() {
        assert((text + more)[i] == text[i]);
        if text[i] != ch {
            lemma_find_char_grows(text, more, ch, i + 1);
        }
    }
}

/// The first position at or after `i` where `text` holds `ch`, or the length of `text`.
pub fn position_of(text: &Vec<char>, ch: char, i: usize) -> (position: usize)
    requires
        i <= text@.len(),
    ensures
        position == find_char(text@, ch, i as int),
        i <= position <= text@.len(),
{
    let mut j: usize = i;
    while j < text.len() && text[j] != ch
        invariant
            i <= j <= text@.len(),
            find_char(text@, ch, i as int) == find_char(text@, ch, j as int),
        decreases text@.len() - j,
    {
        j += 1;
    }
    j
}

/// The lines of `text`.
pub fn lines(text: &str) -> (result: Vec<String>)
    ensures
        result@.map_values(|line: String| line@) == lines_from(text@, 0),
{
    let chars = chars_of(text);
    let mut result: Vec<String> = Vec::new();
    let mut i: usize = 0;
    assert(result@.map_values(|line: String| line@) + lines_from(text@, 0) =~= lines_from(
        text@,
        0,
    ));
    while i < chars.len()
        invariant
            i <= chars@.len(),
            chars@ == text@,
            lines_from(text@, 0) == result@.map_values(|line: String| line@) + lines_from(
                text@,
                i as int,
            ),
        decreases chars@.len() - i,
    {
        let end = position_of(&chars, '\n', i);
        let ghost before = result@.map_values(|line: String| line@);
        let ghost whole = chars@.subrange(i as int, end as int);
        if end < chars.len() {
            let line = if i < end && chars[end - 1] == '\r' {
                assert(whole.drop_last() =~= chars@.subrange(i as int, end - 1));
                string_of(&chars, i, end - 1)
            } else {
                string_of(&chars, i, end)
            };
            let ghost item = line@;
            result.push(line);
            assert(result@.map_values(|line: String| line@) =~= before.push(item));
            assert(before + (seq![item] + lines_from(text@, end + 1)) =~= before.push(item)
                + lines_from(text@, end + 1));
            i = end + 1;
        } else {
            let line = string_of(&chars, i, end);
            let ghost item = line@;
            result.push(line);
            assert(result@.map_values(|line: String| line@) =~= before.push(item));
            assert(item =~= text@.skip(i as int));
            assert(before + seq![item] =~= before.push(item) + lines_from(text@, end as int));
            i = end;
        }
    }
    assert(result@.map_values(|line: String| line@) + lines_from(text@, i as int)
        =~= result@.map_values(|line: String| line@));
    result
}

// ---------------------------------------------------------------------------
// Numbers
// ---------------------------------------------------------------------------

/// The decimal digit that stands for `d`.
pub open spec fn digit(d: nat) -> char {
    (d + 48) as char
}

/// `n` in decimal, without leading zeros.
pub open spec fn decimal(n: nat) -> Seq<char>
    decreases n,
{
    if n < 10 {
        seq![digit(n)]
    } else {
        decimal(n / 10).push(digit(n % 10))
    }
}

/// `n` in decimal, with a minus sign where it is negative.
pub open spec fn signed_decimal(n: int) -> Seq<char> {
    if n < 0 {
        seq!['-'] + decimal((-n) as nat)
    } else {
        decimal(n as nat)
    }
}

/// Every character is a decimal digit.
pub open spec fn all_digits(text: Seq<char>) -> bool {
    forall|i: int| 0 <= i < text.len() ==> '0' <= #[trigger] text[i] <= '9'
}

/// The number that a text of decimal digits denotes.
pub open spec fn digits_value(text: Seq<char>) -> nat
    decreases text.len(),
{
    if text.len() == 0 {
        0
    } else {
        digits_value(text.drop_last()) * 10 + (text.last() as nat - 48) as nat
    }
}

/// The text behind a plus sign, if `text` starts with one.
pub open spec fn unsigned_part(text: Seq<char>) -> Seq<char> {
    if text.len() > 0 && text[0] == '+' {
        text.skip(1)
    } else {
        text
    }
}

/// The machine-sized number that `text` denotes: decimal digits, which a plus sign may precede.
pub open spec fn number_in(text: Seq<char>) -> Option<usize> {
    let body = unsigned_part(text);
    if body.len() > 0 && all_digits(body) && digits_value(body) <= usize::MAX {
        Some(digits_value(body) as usize)
    } else {
        None
    }
}

/// The decimal digit that stands for `d`.
fn digit_char(d: u64) -> (ch: char)
    requires
        d < 10,
    ensures
        ch == digit(d as nat),
{
    (d as u8 + 48) as char
}

/// `n` in decimal.
pub fn decimal_text(n: u64) -> (text: String)
    ensures
        text@ == decimal(n as nat),
    decreases n,
{
    if n < 10 {
        let mut text = String::new();
        text.push(digit_char(n));
        assert(text@ =~= seq![digit(n as nat)]);
        text
    } else {
        let mut text = decimal_text(n / 10);
        text.push(digit_char(n % 10));
        text
    }
}

/// `n` in decimal, with a minus sign where it is negative.
pub fn signed_text(n: i32) -> (text: String)
    ensures
        text@ == signed_decimal(n as int),
{
    if n < 0 {
        let magnitude: u64 = (-(n as i64)) as u64;
        let mut text = String::new();
        text.push('-');
        text.append(decimal_text(magnitude).as_str());
        assert(text@ =~= seq!['-'] + decimal(magnitude as nat));
        text
    } else {
        decimal_text(n as u64)
    }
}

proof fn lemma_digits_value_grows(text: Seq<char>, n: int)
    requires
        0 <= n <= text.len(),
    ensures
        digits_value(text.take(n)) <= digits_value(text),
    decreases text.len() - n,
{
    if n < text.len() {
        lemma_digits_value_grows(text, n + 1);
        assert(text.take(n + 1).drop_last() =~= text.take(n));
    } else {
        assert(text.take(n) =~= text);
    }
}

/// The machine-sized number that `text` denotes, if it denotes one.
pub fn parse_number(text: &Vec<char>) -> (result: Option<usize>)
    ensures
        result == number_in(text@),
{
    let from: usize = if text.len() > 0 && text[0] == '+' {
        1
    } else {
        0
    };
    let ghost body = unsigned_part(text@);
    assert(text@.skip(0) =~= text@);
    assert(body =~= text@.skip(from as int));
    if from == text.len() {
        return None;
    }
    let mut value: usize = 0;
    let mut i: usize = from;
    while i < text.len()
        invariant
            from <= i <= text@.len(),
            body == text@.skip(from as int),
            body == unsigned_part(text@),
            value == digits_value(body.take(i - from)),
            forall|j: int| 0 <= j < i - from ==> '0' <= #[trigger] body[j] <= '9',
        decreases text@.len() - i,
    {
        let ch = text[i];
        assert(body[i - from] == ch);
        if !('0' <= ch && ch <= '9') {
            return None;
        }
        proof {
            assert(body.take(i - from + 1).drop_last() =~= body.take(i - from));
            lemma_digits_value_grows(body, i - from + 1);
        }
        let d: usize = ch as usize - 48;
        match value.checked_mul(10) {
            None => {
                return None;
            },
            Some(tens) => match tens.checked_add(d) {
                None => {
                    return None;
                },
                Some(sum) => {
                    value = sum;
                },
            },
        }
        i += 1;
    }
    assert(body.take(i - from) =~= body);
    Some(value)
}

/// A number written in decimal reads back as itself.
pub proof fn law_decimal_reads_back(n: nat)
    ensures
        decimal(n).len() > 0,
        all_digits(decimal(n)),
        digits_value(decimal(n)) == n,
        n <= usize::MAX ==> number_in(decimal(n)) == Some(n as usize),
    decreases n,
{
    if n >= 10 {
        law_decimal_reads_back(n / 10);
        assert(decimal(n).drop_last() =~= decimal(n / 10));
    } else {
        assert(decimal(n).drop_last() =~= Seq::empty());
        assert(digits_value(decimal(n).drop_last()) == 0);
    }
    assert(decimal(n)[0] != '+');
}

// ---------------------------------------------------------------------------
// Laws
// ---------------------------------------------------------------------------

/// The first occurrence of a text is exchanged where it stands: what precedes it is kept, and
/// what follows it is dealt with in the same way.
pub proof fn law_replacement_goes_on_behind(
    head: Seq<char>,
    from: Seq<char>,
    tail: Seq<char>,
    to: Seq<char>,
)
    requires
        from.len() > 0,
        forall|i: int| 0 <= i < head.len() ==> !(#[trigger] occurs_at(head + from + tail, from, i)),
    ensures
        replace_all(head + from + tail, from, to) == head + to + replace_all(tail, from, to),
    decreases head.len(),
{
    let whole = head + from + tail;
    let rest = replace_all(tail, from, to);
    if head.len() == 0 {
        assert(whole =~= from + tail);
        assert(whole.subrange(0, from.len() as int) =~= from);
        assert(whole.skip(from.len() as int) =~= tail);
        assert(head + to + rest =~= to + rest);
    } else {
        let h = head.skip(1);
        let part = h + from + tail;
        assert(whole.skip(1) =~= part);
        assert(!occurs_at(whole, from, 0));
        assert forall|i: int| 0 <= i < h.len() implies !(#[trigger] occurs_at(part, from, i)) by {
            if occurs_at(part, from, i) {
                assert(whole.subrange(i + 1, i + 1 + from.len()) =~= part.subrange(
                    i,
                    i + from.len(),
                ));
                assert(occurs_at(whole, from, i + 1));
            }
        }
        law_replacement_goes_on_behind(h, from, tail, to);
        assert(whole[0] == head[0]);
        assert(seq![head[0]] + (h + to + rest) =~= head + to + rest);
    }
}

proof fn lemma_trim_start(text: Seq<char>) -> (n: int)
    ensures
        0 <= n <= text.len(),
        trim_start(text) == text.skip(n),
        forall|k: int| 0 <= k < n ==> white(#[trigger] text[k]),
        n < text.len() ==> !white(text[n]),
    decreases text.len(),
{
    if text.len() > 0 && white(text[0]) {
        let m = lemma_trim_start(text.skip(1));
        assert(text.skip(1).skip(m) =~= text.skip(m + 1));
        assert forall|k: int| 0 <= k < m + 1 implies white(#[trigger] text[k]) by {
            if k > 0 {
                assert(text.skip(1)[k - 1] == text[k]);
            }
        }
        m + 1
    } else {
        assert(text.skip(0) =~= text);
        0
    }
}

proof fn lemma_trim_end(text: Seq<char>) -> (n: int)
    ensures
        0 <= n <= text.len(),
        trim_end(text) == text.take(n),
        forall|k: int| n <= k < text.len() ==> white(#[trigger] text[k]),
        n > 0 ==> !white(text[n - 1]),
    decreases text.len(),
{
    if text.len() > 0 && white(text.last()) {
        let short = text.drop_last();
        let n = lemma_trim_end(short);
        assert(short.take(n) =~= text.take(n));
        assert forall|k: int| n <= k < text.len() implies white(#[trigger] text[k]) by {
            if k < short.len() {
                assert(short[k] == text[k]);
            }
        }
        n
    } else {
        assert(text.take(text.len() as int) =~= text);
        text.len() as int
    }
}

/// Trimming takes away white space at both ends, all of it and nothing else.
pub proof fn law_trimming(text: Seq<char>) -> (range: (int, int))
    ensures
        0 <= range.0 <= range.1 <= text.len(),
        trimmed(text) == text.subrange(range.0, range.1),
        forall|k: int|
            0 <= k < range.0 || range.1 <= k < text.len() ==> white(#[trigger] text[k]),
        range.0 < range.1 ==> !white(text[range.0]) && !white(text[range.1 - 1]),
{
    let from = lemma_trim_start(text);
    let rest = text.skip(from);
    let n = lemma_trim_end(rest);
    assert(rest.take(n) =~= text.subrange(from, from + n));
    assert forall|k: int| 0 <= k < from || from + n <= k < text.len() implies white(
        #[trigger] text[k],
    ) by {
        if k >= from {
            assert(rest[k - from] == text[k]);
        }
    }
    if n > 0 {
        assert(rest[n - 1] == text[from + n - 1]);
        assert(rest[0] == text[from]);
    }
    (from, from + n)
}

/// Lines, each with a line feed behind it.
pub open spec fn written_lines(lines: Seq<Seq<char>>) -> Seq<char>
    decreases lines.len(),
{
    if lines.len() == 0 {
        Seq::empty()
    } else {
        lines[0] + seq!['\n'] + written_lines(lines.skip(1))
    }
}

proof fn lemma_line_feed(text: Seq<char>, i: int, end: int)
    requires
        0 <= i <= end < text.len(),
        forall|j: int| i <= j < end ==> #[trigger] text[j] != '\n',
        text[end] == '\n',
    ensures
        find_char(text, '\n', i) == end,
    decreases end - i,
{
    if i < end {
        lemma_line_feed(text, i + 1, end);
    }
}

proof fn lemma_written_lines(before: Seq<char>, lines: Seq<Seq<char>>)
    requires
        forall|k: int, j: int|
            #![trigger lines[k][j]]
            0 <= k < lines.len() && 0 <= j < lines[k].len() ==> lines[k][j] != '\n',
    ensures
        lines_from(before + written_lines(lines), before.len() as int) == lines.map_values(
            |line: Seq<char>| without_return(line),
        ),
    decreases lines.len(),
{
    let text = before + written_lines(lines);
    let i = before.len() as int;
    let wanted = lines.map_values(|line: Seq<char>| without_return(line));
    if lines.len() == 0 {
        assert(lines_from(text, i) =~= wanted);
    } else {
        let line = lines[0];
        let rest = lines.skip(1);
        let next = before + line + seq!['\n'];
        assert(text =~= next + written_lines(rest));
        let end = i + line.len();
        assert forall|j: int| i <= j < end implies #[trigger] text[j] != '\n' by {
            assert(text[j] == lines[0][j - i]);
        }
        assert(text[end] == '\n');
        lemma_line_feed(text, i, end);
        assert(text.subrange(i, end) =~= line);
        assert forall|k: int, j: int|
            #![trigger rest[k][j]]
            0 <= k < rest.len() && 0 <= j < rest[k].len() implies rest[k][j] != '\n' by {
            assert(rest[k][j] == lines[k + 1][j]);
        }
        lemma_written_lines(next, rest);
        assert(seq![without_return(line)] + rest.map_values(
            |l: Seq<char>| without_return(l),
        ) =~= wanted);
    }
}

/// Lines read back from a text in which a line feed ends each of them, without the carriage
/// returns that end them.
pub proof fn law_lines_read_back(lines: Seq<Seq<char>>)
    requires
        forall|k: int, j: int|
            #![trigger lines[k][j]]
            0 <= k < lines.len() && 0 <= j < lines[k].len() ==> lines[k][j] != '\n',
    ensures
        lines_from(written_lines(lines), 0).len() == lines.len(),
        forall|k: int|
            0 <= k < lines.len() ==> (#[trigger] lines_from(written_lines(lines), 0)[k]) == (
            if lines[k].len() > 0 && lines[k].last() == '\r' {
                lines[k].drop_last()
            } else {
                lines[k]
            }),
{
    lemma_written_lines(Seq::empty(), lines);
    assert(Seq::<char>::empty() + written_lines(lines) =~= written_lines(lines));
}

}
