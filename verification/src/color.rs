//! Terminal colours: the placeholders of the prompt and the styles of comments.

use crate::text::{
    contains_text, decimal, lemma_replace_absent, occurs_at, replace, replace_all, replace_each,
    same_text,
};
use vstd::prelude::*;

verus! {

broadcast use vstd::seq::group_seq_axioms;

/// Back to the terminal's own colour.
pub const HL_RESET: &'static str = "\x1B[0m";

pub const HL_BOLD_WHITE: &'static str = "\x1B[1;37m";

pub const HL_YELLOW: &'static str = "\x1B[33m";

pub const HL_GREEN: &'static str = "\x1B[32m";

pub const HL_CYAN: &'static str = "\x1B[36m";

pub const HL_MAGENTA: &'static str = "\x1B[35m";

/// The colour placeholders with the escape sequences they stand for.
pub open spec fn color_codes() -> Seq<(Seq<char>, Seq<char>)> {
    seq![
        ("{black}"@, "\x1B[30m"@),
        ("{red}"@, "\x1B[31m"@),
        ("{green}"@, "\x1B[32m"@),
        ("{yellow}"@, "\x1B[33m"@),
        ("{blue}"@, "\x1B[34m"@),
        ("{magenta}"@, "\x1B[35m"@),
        ("{cyan}"@, "\x1B[36m"@),
        ("{white}"@, "\x1B[37m"@),
        ("{bold}"@, "\x1B[1m"@),
        ("{dim}"@, "\x1B[2m"@),
        ("{reset}"@, "\x1B[0m"@),
    ]
}

/// `text` with the colour placeholders exchanged for escape sequences.
pub open spec fn expanded(text: Seq<char>) -> Seq<char> {
    replace_each(text, color_codes())
}

/// The first `n` of the colour placeholders exchanged.
proof fn lemma_expand_one_more(text: Seq<char>, n: int)
    requires
        0 <= n < color_codes().len(),
    ensures
        replace_each(text, color_codes().take(n + 1)) == replace_all(
            replace_each(text, color_codes().take(n)),
            color_codes()[n].0,
            color_codes()[n].1,
        ),
{
    assert(color_codes().take(n + 1).drop_last() =~= color_codes().take(n));
}

/// `text` with the colour placeholders exchanged for escape sequences.
pub fn expand_colors(s: &str) -> (result: String)
    ensures
        result@ == expanded(s@),
{
    proof {
        lemma_code_shapes();
        lemma_expand_one_more(s@, 0);
        lemma_expand_one_more(s@, 1);
        lemma_expand_one_more(s@, 2);
        lemma_expand_one_more(s@, 3);
        lemma_expand_one_more(s@, 4);
        lemma_expand_one_more(s@, 5);
        lemma_expand_one_more(s@, 6);
        lemma_expand_one_more(s@, 7);
        lemma_expand_one_more(s@, 8);
        lemma_expand_one_more(s@, 9);
        lemma_expand_one_more(s@, 10);
        assert(color_codes().take(11) =~= color_codes());
        assert(color_codes().take(0) =~= Seq::empty());
    }
    let text = replace(s, "{black}", "\x1B[30m");
    let text = replace(text.as_str(), "{red}", "\x1B[31m");
    let text = replace(text.as_str(), "{green}", "\x1B[32m");
    let text = replace(text.as_str(), "{yellow}", "\x1B[33m");
    let text = replace(text.as_str(), "{blue}", "\x1B[34m");
    let text = replace(text.as_str(), "{magenta}", "\x1B[35m");
    let text = replace(text.as_str(), "{cyan}", "\x1B[36m");
    let text = replace(text.as_str(), "{white}", "\x1B[37m");
    let text = replace(text.as_str(), "{bold}", "\x1B[1m");
    let text = replace(text.as_str(), "{dim}", "\x1B[2m");
    replace(text.as_str(), "{reset}", "\x1B[0m")
}

/// A placeholder starts with a brace and holds no escape character.
spec fn placeholder_shape(text: Seq<char>) -> bool {
    &&& text.len() > 0
    &&& text[0] == '{'
    &&& forall|i: int| 0 <= i < text.len() ==> #[trigger] text[i] != '\x1B'
}

/// An escape sequence starts with the escape character and holds no brace.
spec fn code_shape(text: Seq<char>) -> bool {
    &&& text.len() > 0
    &&& text[0] == '\x1B'
    &&& forall|i: int| 0 <= i < text.len() ==> #[trigger] text[i] != '{'
}

proof fn lemma_code_shapes()
    ensures
        forall|k: int|
            0 <= k < color_codes().len() ==> placeholder_shape((#[trigger] color_codes()[k]).0)
                && code_shape(color_codes()[k].1),
        "{black}"@.len() > 0,
        "{red}"@.len() > 0,
        "{green}"@.len() > 0,
        "{yellow}"@.len() > 0,
        "{blue}"@.len() > 0,
        "{magenta}"@.len() > 0,
        "{cyan}"@.len() > 0,
        "{white}"@.len() > 0,
        "{bold}"@.len() > 0,
        "{dim}"@.len() > 0,
        "{reset}"@.len() > 0,
{
    reveal_strlit("{black}");
    reveal_strlit("{red}");
    reveal_strlit("{green}");
    reveal_strlit("{yellow}");
    reveal_strlit("{blue}");
    reveal_strlit("{magenta}");
    reveal_strlit("{cyan}");
    reveal_strlit("{white}");
    reveal_strlit("{bold}");
    reveal_strlit("{dim}");
    reveal_strlit("{reset}");
    reveal_strlit("\x1B[30m");
    reveal_strlit("\x1B[31m");
    reveal_strlit("\x1B[32m");
    reveal_strlit("\x1B[33m");
    reveal_strlit("\x1B[34m");
    reveal_strlit("\x1B[35m");
    reveal_strlit("\x1B[36m");
    reveal_strlit("\x1B[37m");
    reveal_strlit("\x1B[1m");
    reveal_strlit("\x1B[2m");
    reveal_strlit("\x1B[0m");
}

/// What starts a text after a replacement started it before, unless it runs into a code.
proof fn lemma_start_was_there(
    text: Seq<char>,
    from: Seq<char>,
    to: Seq<char>,
    start: Seq<char>,
)
    requires
        from.len() > 0,
        code_shape(to),
        forall|i: int| 0 <= i < start.len() ==> #[trigger] start[i] != '\x1B',
        occurs_at(replace_all(text, from, to), start, 0),
    ensures
        occurs_at(text, start, 0),
    decreases text.len(),
{
    let result = replace_all(text, from, to);
    if start.len() == 0 {
        assert(text.subrange(0, 0) =~= start);
    } else if text.len() > 0 {
        assert(result.subrange(0, start.len() as int)[0] == start[0]);
        if occurs_at(text, from, 0) {
            assert(result[0] == to[0]);
        } else {
            let rest = start.skip(1);
            let tail = replace_all(text.skip(1), from, to);
            assert(tail =~= result.skip(1));
            assert(tail.subrange(0, rest.len() as int) =~= result.subrange(
                0,
                start.len() as int,
            ).skip(1));
            assert forall|i: int| 0 <= i < rest.len() implies #[trigger] rest[i] != '\x1B' by {
                assert(rest[i] == start[i + 1]);
            }
            lemma_start_was_there(text.skip(1), from, to, rest);
            assert(start =~= seq![text[0]] + rest);
            assert(text.subrange(0, start.len() as int) =~= seq![text[0]] + text.skip(1).subrange(
                0,
                rest.len() as int,
            ));
        }
    }
}

/// A replacement by a code brings no placeholder into a text and leaves none of the kind that it
/// replaces.
proof fn lemma_no_new_placeholder(
    text: Seq<char>,
    from: Seq<char>,
    to: Seq<char>,
    wanted: Seq<char>,
)
    requires
        from.len() > 0,
        code_shape(to),
        placeholder_shape(wanted),
        wanted == from || !contains_text(text, wanted),
    ensures
        !contains_text(replace_all(text, from, to), wanted),
    decreases text.len(),
{
    let result = replace_all(text, from, to);
    if contains_text(result, wanted) {
        let i = choose|i: int| occurs_at(result, wanted, i);
        assert(result.subrange(i, i + wanted.len())[0] == wanted[0]);
        assert(result[i] == '{');
        if text.len() > 0 {
            if occurs_at(text, from, 0) {
                let n = from.len() as int;
                let tail = replace_all(text.skip(n), from, to);
                assert(result == to + tail);
                lemma_tail_lacks(text, n, from, wanted);
                lemma_no_new_placeholder(text.skip(n), from, to, wanted);
                if i < to.len() {
                    assert(result[i] == to[i]);
                } else {
                    assert(tail.subrange(i - to.len(), i - to.len() + wanted.len())
                        =~= result.subrange(i, i + wanted.len()));
                    assert(occurs_at(tail, wanted, i - to.len()));
                }
            } else {
                let tail = replace_all(text.skip(1), from, to);
                lemma_tail_lacks(text, 1, from, wanted);
                lemma_no_new_placeholder(text.skip(1), from, to, wanted);
                if i == 0 {
                    lemma_start_was_there(text, from, to, wanted);
                } else {
                    assert(tail.subrange(i - 1, i - 1 + wanted.len()) =~= result.subrange(
                        i,
                        i + wanted.len(),
                    ));
                    assert(occurs_at(tail, wanted, i - 1));
                }
            }
        }
    }
}

/// The rest of a text lacks what the text lacks.
proof fn lemma_tail_lacks(text: Seq<char>, n: int, from: Seq<char>, wanted: Seq<char>)
    requires
        0 <= n <= text.len(),
        wanted == from || !contains_text(text, wanted),
    ensures
        wanted == from || !contains_text(text.skip(n), wanted),
{
    if wanted != from && contains_text(text.skip(n), wanted) {
        let i = choose|i: int| occurs_at(text.skip(n), wanted, i);
        assert(text.skip(n).subrange(i, i + wanted.len()) =~= text.subrange(
            n + i,
            n + i + wanted.len(),
        ));
        assert(occurs_at(text, wanted, n + i));
    }
}

/// After the first `n` passes none of the first `n` placeholders is left.
proof fn lemma_passes_clear(text: Seq<char>, n: int, k: int)
    requires
        0 <= k < n <= color_codes().len(),
    ensures
        !contains_text(replace_each(text, color_codes().take(n)), color_codes()[k].0),
    decreases n,
{
    lemma_code_shapes();
    lemma_expand_one_more(text, n - 1);
    assert(placeholder_shape(color_codes()[k].0));
    assert(code_shape(color_codes()[n - 1].1) && placeholder_shape(color_codes()[n - 1].0));
    if k < n - 1 {
        lemma_passes_clear(text, n - 1, k);
    }
    lemma_no_new_placeholder(
        replace_each(text, color_codes().take(n - 1)),
        color_codes()[n - 1].0,
        color_codes()[n - 1].1,
        color_codes()[k].0,
    );
}

/// No colour placeholder survives the expansion, whatever the text.
pub proof fn law_no_placeholder_left(text: Seq<char>, k: int)
    requires
        0 <= k < color_codes().len(),
    ensures
        !contains_text(expanded(text), color_codes()[k].0),
{
    lemma_passes_clear(text, color_codes().len() as int, k);
    assert(color_codes().take(color_codes().len() as int) =~= color_codes());
}

/// A text without colour placeholders stays as it is.
pub proof fn law_plain_text_is_kept(text: Seq<char>)
    requires
        forall|k: int|
            0 <= k < color_codes().len() ==> !contains_text(text, (#[trigger] color_codes()[k]).0),
    ensures
        expanded(text) == text,
{
    lemma_plain_passes(text, color_codes().len() as int);
    assert(color_codes().take(color_codes().len() as int) =~= color_codes());
}

proof fn lemma_plain_passes(text: Seq<char>, n: int)
    requires
        0 <= n <= color_codes().len(),
        forall|k: int|
            0 <= k < color_codes().len() ==> !contains_text(text, (#[trigger] color_codes()[k]).0),
    ensures
        replace_each(text, color_codes().take(n)) == text,
    decreases n,
{
    if n > 0 {
        lemma_plain_passes(text, n - 1);
        lemma_expand_one_more(text, n - 1);
        lemma_replace_absent(text, color_codes()[n - 1].0, color_codes()[n - 1].1);
    }
}

/// Expanding a second time changes nothing more.
pub proof fn law_expansion_is_final(text: Seq<char>)
    ensures
        expanded(expanded(text)) == expanded(text),
{
    assert forall|k: int| 0 <= k < color_codes().len() implies !contains_text(
        expanded(text),
        (#[trigger] color_codes()[k]).0,
    ) by {
        law_no_placeholder_left(text, k);
    }
    law_plain_text_is_kept(expanded(text));
}

/// An occurrence of `wanted` reaches across the border between `head` and `tail`.
pub open spec fn straddles(head: Seq<char>, tail: Seq<char>, wanted: Seq<char>) -> bool {
    exists|i: int|
        #[trigger] occurs_at(head + tail, wanted, i) && i < head.len() < i + wanted.len()
}

proof fn lemma_straddles_more(head: Seq<char>, tail: Seq<char>, n: int, wanted: Seq<char>)
    requires
        0 <= n <= head.len(),
        straddles(head.skip(n), tail, wanted),
    ensures
        straddles(head, tail, wanted),
{
    let part = head.skip(n) + tail;
    let i = choose|i: int|
        #[trigger] occurs_at(part, wanted, i) && i < head.skip(n).len() < i + wanted.len();
    let whole = head + tail;
    assert(whole.subrange(n + i, n + i + wanted.len()) =~= part.subrange(i, i + wanted.len()));
    assert(occurs_at(whole, wanted, n + i));
}

proof fn lemma_replace_pieces(head: Seq<char>, tail: Seq<char>, from: Seq<char>, to: Seq<char>)
    requires
        from.len() > 0,
        !straddles(head, tail, from),
    ensures
        replace_all(head + tail, from, to) == replace_all(head, from, to) + replace_all(
            tail,
            from,
            to,
        ),
    decreases head.len(),
{
    let whole = head + tail;
    let rest = replace_all(tail, from, to);
    if head.len() == 0 {
        assert(whole =~= tail);
        assert(replace_all(head, from, to) + rest =~= rest);
    } else {
        let n = from.len() as int;
        if n <= head.len() {
            assert(whole.subrange(0, n) =~= head.subrange(0, n));
        }
        assert(occurs_at(whole, from, 0) == occurs_at(head, from, 0));
        let step: int = if occurs_at(head, from, 0) {
            n
        } else {
            1
        };
        assert(whole.skip(step) =~= head.skip(step) + tail);
        if straddles(head.skip(step), tail, from) {
            lemma_straddles_more(head, tail, step, from);
        }
        lemma_replace_pieces(head.skip(step), tail, from, to);
        let done = replace_all(head.skip(step), from, to);
        assert(to + (done + rest) =~= to + done + rest);
        assert(seq![head[0]] + (done + rest) =~= seq![head[0]] + done + rest);
    }
}

/// A replacement by a code leaves a trace.
proof fn lemma_untouched(text: Seq<char>, from: Seq<char>, to: Seq<char>)
    requires
        from.len() > 0,
        code_shape(to),
        forall|i: int|
            0 <= i < replace_all(text, from, to).len() ==> #[trigger] replace_all(
                text,
                from,
                to,
            )[i] != '\x1B',
    ensures
        replace_all(text, from, to) == text,
    decreases text.len(),
{
    let result = replace_all(text, from, to);
    if text.len() > 0 {
        if occurs_at(text, from, 0) {
            assert(result[0] == to[0]);
        } else {
            let tail = replace_all(text.skip(1), from, to);
            assert forall|i: int| 0 <= i < tail.len() implies #[trigger] tail[i] != '\x1B' by {
                assert(result[i + 1] == tail[i]);
            }
            lemma_untouched(text.skip(1), from, to);
            assert(seq![text[0]] + text.skip(1) =~= text);
        }
    } else {
        assert(result =~= text);
    }
}

/// What ends a text after a replacement ended it before, where it starts with a brace and holds
/// no code.
proof fn lemma_end_was_there(text: Seq<char>, from: Seq<char>, to: Seq<char>, end: Seq<char>)
    requires
        from.len() > 0,
        code_shape(to),
        placeholder_shape(end),
        end.len() <= replace_all(text, from, to).len(),
        replace_all(text, from, to).skip(replace_all(text, from, to).len() - end.len()) == end,
    ensures
        end.len() <= text.len(),
        text.skip(text.len() - end.len()) == end,
    decreases text.len(),
{
    let result = replace_all(text, from, to);
    let at = result.len() - end.len();
    assert(result.skip(at)[0] == result[at]);
    if text.len() > 0 {
        let (head, step): (Seq<char>, int) = if occurs_at(text, from, 0) {
            (to, from.len() as int)
        } else {
            (seq![text[0]], 1)
        };
        let rest = text.skip(step);
        let tail = replace_all(rest, from, to);
        assert(result =~= head + tail);
        if end.len() <= tail.len() {
            assert(tail.skip(tail.len() - end.len()) =~= result.skip(at));
            lemma_end_was_there(rest, from, to, end);
            assert(text.skip(text.len() - end.len()) =~= rest.skip(rest.len() - end.len()));
        } else if occurs_at(text, from, 0) {
            assert(result[at] == to[at]);
        } else {
            assert(at == 0);
            assert(result.skip(0) =~= result);
            lemma_untouched(text, from, to);
            assert(text.skip(0) =~= text);
        }
    }
}

proof fn lemma_border_stays_clear(
    head: Seq<char>,
    tail: Seq<char>,
    from: Seq<char>,
    to: Seq<char>,
    wanted: Seq<char>,
)
    requires
        from.len() > 0,
        code_shape(to),
        placeholder_shape(wanted),
        !straddles(head, tail, wanted),
    ensures
        !straddles(replace_all(head, from, to), replace_all(tail, from, to), wanted),
{
    let a = replace_all(head, from, to);
    let b = replace_all(tail, from, to);
    if straddles(a, b, wanted) {
        let i = choose|i: int|
            #[trigger] occurs_at(a + b, wanted, i) && i < a.len() < i + wanted.len();
        let n = a.len() - i;
        let end = wanted.take(n);
        let start = wanted.skip(n);
        let found = (a + b).subrange(i, i + wanted.len());
        assert(found == wanted);
        assert(a.skip(i) =~= found.take(n));
        assert(b.subrange(0, start.len() as int) =~= found.skip(n));
        assert forall|j: int| 0 <= j < end.len() implies #[trigger] end[j] != '\x1B' by {
            assert(end[j] == wanted[j]);
        }
        assert forall|j: int| 0 <= j < start.len() implies #[trigger] start[j] != '\x1B' by {
            assert(start[j] == wanted[n + j]);
        }
        assert(occurs_at(b, start, 0));
        lemma_start_was_there(tail, from, to, start);
        lemma_end_was_there(head, from, to, end);
        let at = head.len() - n;
        let whole = head + tail;
        assert(whole.subrange(at, at + wanted.len()) =~= head.skip(at) + tail.subrange(
            0,
            start.len() as int,
        ));
        assert(end + start =~= wanted);
        assert(occurs_at(whole, wanted, at));
    }
}

proof fn lemma_pieces_passes(head: Seq<char>, tail: Seq<char>, n: int)
    requires
        0 <= n <= color_codes().len(),
        forall|k: int|
            0 <= k < color_codes().len() ==> !straddles(
                head,
                tail,
                (#[trigger] color_codes()[k]).0,
            ),
    ensures
        ({
            let codes = color_codes().take(n);
            &&& replace_each(head + tail, codes) == replace_each(head, codes) + replace_each(
                tail,
                codes,
            )
            &&& forall|k: int|
                0 <= k < color_codes().len() ==> !straddles(
                    replace_each(head, codes),
                    replace_each(tail, codes),
                    (#[trigger] color_codes()[k]).0,
                )
        }),
    decreases n,
{
    if n > 0 {
        lemma_pieces_passes(head, tail, n - 1);
        lemma_code_shapes();
        lemma_expand_one_more(head + tail, n - 1);
        lemma_expand_one_more(head, n - 1);
        lemma_expand_one_more(tail, n - 1);
        let before = color_codes().take(n - 1);
        let a = replace_each(head, before);
        let b = replace_each(tail, before);
        let (from, to) = color_codes()[n - 1];
        assert(placeholder_shape(color_codes()[n - 1].0) && code_shape(color_codes()[n - 1].1));
        assert(!straddles(a, b, color_codes()[n - 1].0));
        lemma_replace_pieces(a, b, from, to);
        assert forall|k: int| 0 <= k < color_codes().len() implies !straddles(
            replace_all(a, from, to),
            replace_all(b, from, to),
            (#[trigger] color_codes()[k]).0,
        ) by {
            assert(placeholder_shape(color_codes()[k].0));
            lemma_border_stays_clear(a, b, from, to, color_codes()[k].0);
        }
    }
}

/// A text can be expanded piece by piece, unless a placeholder reaches across the border.
pub proof fn law_expansion_goes_piece_by_piece(head: Seq<char>, tail: Seq<char>)
    requires
        forall|k: int|
            0 <= k < color_codes().len() ==> !straddles(
                head,
                tail,
                (#[trigger] color_codes()[k]).0,
            ),
    ensures
        expanded(head + tail) == expanded(head) + expanded(tail),
{
    lemma_pieces_passes(head, tail, color_codes().len() as int);
    assert(color_codes().take(color_codes().len() as int) =~= color_codes());
}

// ---------------------------------------------------------------------------
// Comment styles
// ---------------------------------------------------------------------------

/// The escape sequence of a comment style; dim where there is none or it is unknown.
pub open spec fn style_code(style: Option<Seq<char>>) -> Seq<char> {
    match style {
        None => "\x1B[2m"@,
        Some(name) => if name == "bold"@ {
            "\x1B[1m"@
        } else if name == "italic"@ {
            "\x1B[3m"@
        } else if name == "red"@ {
            "\x1B[31m"@
        } else if name == "green"@ {
            "\x1B[32m"@
        } else if name == "yellow"@ {
            "\x1B[33m"@
        } else if name == "blue"@ {
            "\x1B[34m"@
        } else if name == "magenta"@ {
            "\x1B[35m"@
        } else if name == "cyan"@ {
            "\x1B[36m"@
        } else {
            "\x1B[2m"@
        },
    }
}

/// The escape sequence of a comment style; dim where there is none or it is unknown.
pub fn style_to_ansi(style: Option<&str>) -> (code: &'static str)
    ensures
        code@ == style_code(
            match style {
                Some(name) => Some(name@),
                None => None,
            },
        ),
{
    match style {
        None => "\x1B[2m",
        Some(name) => if same_text(name, "bold") {
            "\x1B[1m"
        } else if same_text(name, "italic") {
            "\x1B[3m"
        } else if same_text(name, "red") {
            "\x1B[31m"
        } else if same_text(name, "green") {
            "\x1B[32m"
        } else if same_text(name, "yellow") {
            "\x1B[33m"
        } else if same_text(name, "blue") {
            "\x1B[34m"
        } else if same_text(name, "magenta") {
            "\x1B[35m"
        } else if same_text(name, "cyan") {
            "\x1B[36m"
        } else {
            "\x1B[2m"
        },
    }
}

// ---------------------------------------------------------------------------
// What the tables have in common
// ---------------------------------------------------------------------------

/// The eight colours are numbered as terminals number them, from black on.
pub proof fn law_colours_are_numbered(k: int)
    requires
        0 <= k < 8,
    ensures
        ({
            let names = seq![
                "black"@,
                "red"@,
                "green"@,
                "yellow"@,
                "blue"@,
                "magenta"@,
                "cyan"@,
                "white"@,
            ];
            &&& color_codes()[k].0 == "{"@ + names[k] + "}"@
            &&& color_codes()[k].1 == "\x1B[3"@ + decimal(k as nat) + "m"@
        }),
{
    lemma_table_texts();
    assert(color_codes()[k].0 =~= "{"@ + seq![
        "black"@,
        "red"@,
        "green"@,
        "yellow"@,
        "blue"@,
        "magenta"@,
        "cyan"@,
        "white"@,
    ][k] + "}"@);
    assert(color_codes()[k].1 =~= "\x1B[3"@ + decimal(k as nat) + "m"@);
}

/// A comment style that is also a placeholder, other than black, white and reset, looks like it.
/// Of all other styles only italic is known; what is unknown is dim.
pub proof fn law_styles_look_like_placeholders(name: Seq<char>)
    ensures
        forall|k: int|
            0 <= k < color_codes().len() && k != 0 && k != 7 && k != 10 && (
            #[trigger] color_codes()[k]).0 == "{"@ + name + "}"@ ==> style_code(Some(name))
                == color_codes()[k].1,
        name == "italic"@ ==> style_code(Some(name)) == "\x1B[3m"@,
        name != "italic"@ && (forall|k: int|
            0 <= k < color_codes().len() && k != 0 && k != 7 && k != 10 ==> (
            #[trigger] color_codes()[k]).0 != "{"@ + name + "}"@) ==> style_code(Some(name))
            == style_code(None),
        style_code(None) == color_codes()[9].1,
{
    lemma_table_texts();
    let braced = "{"@ + name + "}"@;
    assert(braced.subrange(1, braced.len() - 1) =~= name);
    assert(name == "bold"@ ==> color_codes()[8].0 =~= braced);
    assert(name == "red"@ ==> color_codes()[1].0 =~= braced);
    assert(name == "green"@ ==> color_codes()[2].0 =~= braced);
    assert(name == "yellow"@ ==> color_codes()[3].0 =~= braced);
    assert(name == "blue"@ ==> color_codes()[4].0 =~= braced);
    assert(name == "magenta"@ ==> color_codes()[5].0 =~= braced);
    assert(name == "cyan"@ ==> color_codes()[6].0 =~= braced);
    assert("{bold}"@.subrange(1, 5) =~= "bold"@);
    assert("{red}"@.subrange(1, 4) =~= "red"@);
    assert("{green}"@.subrange(1, 6) =~= "green"@);
    assert("{yellow}"@.subrange(1, 7) =~= "yellow"@);
    assert("{blue}"@.subrange(1, 5) =~= "blue"@);
    assert("{magenta}"@.subrange(1, 8) =~= "magenta"@);
    assert("{cyan}"@.subrange(1, 5) =~= "cyan"@);
    assert("{dim}"@.subrange(1, 4) =~= "dim"@);
    assert("bold"@[0] != "italic"@[0]);
    assert("dim"@[0] != "italic"@[0] && "dim"@.len() == 3 && "red"@[0] != "dim"@[0]);
}

/// The characters of the texts in the tables.
pub proof fn lemma_table_texts()
    ensures
        "{black}"@ == seq!['{', 'b', 'l', 'a', 'c', 'k', '}'],
        "{red}"@ == seq!['{', 'r', 'e', 'd', '}'],
        "{green}"@ == seq!['{', 'g', 'r', 'e', 'e', 'n', '}'],
        "{yellow}"@ == seq!['{', 'y', 'e', 'l', 'l', 'o', 'w', '}'],
        "{blue}"@ == seq!['{', 'b', 'l', 'u', 'e', '}'],
        "{magenta}"@ == seq!['{', 'm', 'a', 'g', 'e', 'n', 't', 'a', '}'],
        "{cyan}"@ == seq!['{', 'c', 'y', 'a', 'n', '}'],
        "{white}"@ == seq!['{', 'w', 'h', 'i', 't', 'e', '}'],
        "{bold}"@ == seq!['{', 'b', 'o', 'l', 'd', '}'],
        "{dim}"@ == seq!['{', 'd', 'i', 'm', '}'],
        "{reset}"@ == seq!['{', 'r', 'e', 's', 'e', 't', '}'],
        "\x1B[30m"@ == seq!['\x1B', '[', '3', '0', 'm'],
        "\x1B[31m"@ == seq!['\x1B', '[', '3', '1', 'm'],
        "\x1B[32m"@ == seq!['\x1B', '[', '3', '2', 'm'],
        "\x1B[33m"@ == seq!['\x1B', '[', '3', '3', 'm'],
        "\x1B[34m"@ == seq!['\x1B', '[', '3', '4', 'm'],
        "\x1B[35m"@ == seq!['\x1B', '[', '3', '5', 'm'],
        "\x1B[36m"@ == seq!['\x1B', '[', '3', '6', 'm'],
        "\x1B[37m"@ == seq!['\x1B', '[', '3', '7', 'm'],
        "\x1B[1m"@ == seq!['\x1B', '[', '1', 'm'],
        "\x1B[2m"@ == seq!['\x1B', '[', '2', 'm'],
        "\x1B[0m"@ == seq!['\x1B', '[', '0', 'm'],
        "\x1B[3"@ == seq!['\x1B', '[', '3'],
        "m"@ == seq!['m'],
        "{"@ == seq!['{'],
        "}"@ == seq!['}'],
        "black"@ == seq!['b', 'l', 'a', 'c', 'k'],
        "red"@ == seq!['r', 'e', 'd'],
        "green"@ == seq!['g', 'r', 'e', 'e', 'n'],
        "yellow"@ == seq!['y', 'e', 'l', 'l', 'o', 'w'],
        "blue"@ == seq!['b', 'l', 'u', 'e'],
        "magenta"@ == seq!['m', 'a', 'g', 'e', 'n', 't', 'a'],
        "cyan"@ == seq!['c', 'y', 'a', 'n'],
        "white"@ == seq!['w', 'h', 'i', 't', 'e'],
        "bold"@ == seq!['b', 'o', 'l', 'd'],
        "dim"@ == seq!['d', 'i', 'm'],
        "italic"@ == seq!['i', 't', 'a', 'l', 'i', 'c'],
{
    reveal_strlit("{black}");
    assert("{black}"@ =~= seq!['{', 'b', 'l', 'a', 'c', 'k', '}']);
    reveal_strlit("{red}");
    assert("{red}"@ =~= seq!['{', 'r', 'e', 'd', '}']);
    reveal_strlit("{green}");
    assert("{green}"@ =~= seq!['{', 'g', 'r', 'e', 'e', 'n', '}']);
    reveal_strlit("{yellow}");
    assert("{yellow}"@ =~= seq!['{', 'y', 'e', 'l', 'l', 'o', 'w', '}']);
    reveal_strlit("{blue}");
    assert("{blue}"@ =~= seq!['{', 'b', 'l', 'u', 'e', '}']);
    reveal_strlit("{magenta}");
    assert("{magenta}"@ =~= seq!['{', 'm', 'a', 'g', 'e', 'n', 't', 'a', '}']);
    reveal_strlit("{cyan}");
    assert("{cyan}"@ =~= seq!['{', 'c', 'y', 'a', 'n', '}']);
    reveal_strlit("{white}");
    assert("{white}"@ =~= seq!['{', 'w', 'h', 'i', 't', 'e', '}']);
    reveal_strlit("{bold}");
    assert("{bold}"@ =~= seq!['{', 'b', 'o', 'l', 'd', '}']);
    reveal_strlit("{dim}");
    assert("{dim}"@ =~= seq!['{', 'd', 'i', 'm', '}']);
    reveal_strlit("{reset}");
    assert("{reset}"@ =~= seq!['{', 'r', 'e', 's', 'e', 't', '}']);
    reveal_strlit("\x1B[30m");
    assert("\x1B[30m"@ =~= seq!['\x1B', '[', '3', '0', 'm']);
    reveal_strlit("\x1B[31m");
    assert("\x1B[31m"@ =~= seq!['\x1B', '[', '3', '1', 'm']);
    reveal_strlit("\x1B[32m");
    assert("\x1B[32m"@ =~= seq!['\x1B', '[', '3', '2', 'm']);
    reveal_strlit("\x1B[33m");
    assert("\x1B[33m"@ =~= seq!['\x1B', '[', '3', '3', 'm']);
    reveal_strlit("\x1B[34m");
    assert("\x1B[34m"@ =~= seq!['\x1B', '[', '3', '4', 'm']);
    reveal_strlit("\x1B[35m");
    assert("\x1B[35m"@ =~= seq!['\x1B', '[', '3', '5', 'm']);
    reveal_strlit("\x1B[36m");
    assert("\x1B[36m"@ =~= seq!['\x1B', '[', '3', '6', 'm']);
    reveal_strlit("\x1B[37m");
    assert("\x1B[37m"@ =~= seq!['\x1B', '[', '3', '7', 'm']);
    reveal_strlit("\x1B[1m");
    assert("\x1B[1m"@ =~= seq!['\x1B', '[', '1', 'm']);
    reveal_strlit("\x1B[2m");
    assert("\x1B[2m"@ =~= seq!['\x1B', '[', '2', 'm']);
    reveal_strlit("\x1B[0m");
    assert("\x1B[0m"@ =~= seq!['\x1B', '[', '0', 'm']);
    reveal_strlit("\x1B[3");
    assert("\x1B[3"@ =~= seq!['\x1B', '[', '3']);
    reveal_strlit("m");
    assert("m"@ =~= seq!['m']);
    reveal_strlit("{");
    assert("{"@ =~= seq!['{']);
    reveal_strlit("}");
    assert("}"@ =~= seq!['}']);
    reveal_strlit("black");
    assert("black"@ =~= seq!['b', 'l', 'a', 'c', 'k']);
    reveal_strlit("red");
    assert("red"@ =~= seq!['r', 'e', 'd']);
    reveal_strlit("green");
    assert("green"@ =~= seq!['g', 'r', 'e', 'e', 'n']);
    reveal_strlit("yellow");
    assert("yellow"@ =~= seq!['y', 'e', 'l', 'l', 'o', 'w']);
    reveal_strlit("blue");
    assert("blue"@ =~= seq!['b', 'l', 'u', 'e']);
    reveal_strlit("magenta");
    assert("magenta"@ =~= seq!['m', 'a', 'g', 'e', 'n', 't', 'a']);
    reveal_strlit("cyan");
    assert("cyan"@ =~= seq!['c', 'y', 'a', 'n']);
    reveal_strlit("white");
    assert("white"@ =~= seq!['w', 'h', 'i', 't', 'e']);
    reveal_strlit("bold");
    assert("bold"@ =~= seq!['b', 'o', 'l', 'd']);
    reveal_strlit("dim");
    assert("dim"@ =~= seq!['d', 'i', 'm']);
    reveal_strlit("italic");
    assert("italic"@ =~= seq!['i', 't', 'a', 'l', 'i', 'c']);
}

}
