//! Captured variables in command texts: `{name}` stands for the value of `name`.

use crate::text::{
    contains_text, find_char, law_replacement_goes_on_behind, lemma_replace_absent, occurs_at,
    replace, replace_all, replace_each,
};
use crate::vars::{bindings, distinct, law_put, lemma_absent, lemma_find_name, put, Entries, Vars};
use vstd::prelude::*;

verus! {

broadcast use vstd::seq::group_seq_axioms;

/// `name` in braces.
pub open spec fn placeholder(name: Seq<char>) -> Seq<char> {
    seq!['{'] + name + seq!['}']
}

/// What is exchanged for what, variable by variable.
pub open spec fn substitutions(entries: Entries) -> Seq<(Seq<char>, Seq<char>)> {
    entries.map_values(|entry: (Seq<char>, Seq<char>)| (placeholder(entry.0), entry.1))
}

/// `text` with each variable's placeholder exchanged for its value, one variable after the other.
pub open spec fn substituted(text: Seq<char>, entries: Entries) -> Seq<char> {
    replace_each(text, substitutions(entries))
}

/// `text` with the placeholders of all variables exchanged for their values.
pub fn substitute_vars(text: &str, vars: &Vars) -> (result: String)
    ensures
        result@ == substituted(text@, vars@),
{
    let mut result = text.to_owned();
    let mut i: usize = 0;
    while i < vars.len()
        invariant
            i <= vars@.len(),
            result@ == substituted(text@, vars@.take(i as int)),
        decreases vars@.len() - i,
    {
        let mut wanted = String::new();
        wanted.push('{');
        wanted.append(vars.name_at(i).as_str());
        wanted.push('}');
        assert(wanted@ =~= placeholder(vars@[i as int].0));
        assert(substitutions(vars@.take(i + 1)).drop_last() =~= substitutions(
            vars@.take(i as int),
        ));
        result = replace(result.as_str(), wanted.as_str(), vars.value_at(i).as_str());
        i += 1;
    }
    assert(vars@.take(i as int) =~= vars@);
    result
}

// ---------------------------------------------------------------------------
// Laws
// ---------------------------------------------------------------------------

/// A text that holds no variable's placeholder stays as it is.
pub proof fn law_other_text_is_kept(text: Seq<char>, entries: Entries)
    requires
        forall|k: int|
            0 <= k < entries.len() ==> !contains_text(text, placeholder((#[trigger] entries[k]).0)),
    ensures
        substituted(text, entries) == text,
    decreases entries.len(),
{
    if entries.len() > 0 {
        let head = entries.drop_last();
        assert forall|k: int| 0 <= k < head.len() implies !contains_text(
            text,
            placeholder((#[trigger] head[k]).0),
        ) by {
            assert(head[k] == entries[k]);
        }
        law_other_text_is_kept(text, head);
        assert(substitutions(entries).drop_last() =~= substitutions(head));
        assert(entries[entries.len() - 1] == entries.last());
        lemma_replace_absent(text, placeholder(entries.last().0), entries.last().1);
    }
}

/// Neither brace occurs in `text`.
pub open spec fn braceless(text: Seq<char>) -> bool {
    forall|i: int| 0 <= i < text.len() ==> #[trigger] text[i] != '{' && text[i] != '}'
}

/// No brace opens inside braces in `text`; `inside` says whether one is open before it.
pub open spec fn flat(text: Seq<char>, inside: bool) -> bool
    decreases text.len(),
{
    if text.len() == 0 {
        true
    } else if text[0] == '{' {
        !inside && flat(text.skip(1), true)
    } else if text[0] == '}' {
        flat(text.skip(1), false)
    } else {
        flat(text.skip(1), inside)
    }
}

/// `text` with the braced names that `values` binds exchanged for their values, all at once.
pub open spec fn filled(text: Seq<char>, values: Map<Seq<char>, Seq<char>>) -> Seq<char>
    decreases text.len(),
{
    if text.len() == 0 {
        text
    } else {
        let end = find_char(text, '}', 1);
        if text[0] == '{' && 1 <= end < text.len() && values.contains_key(text.subrange(1, end)) {
            values[text.subrange(1, end)] + filled(text.skip(end + 1), values)
        } else {
            seq![text[0]] + filled(text.skip(1), values)
        }
    }
}

/// Replacement leaves a brace-free beginning alone when it looks for a placeholder.
proof fn lemma_replace_skips(
    head: Seq<char>,
    tail: Seq<char>,
    name: Seq<char>,
    value: Seq<char>,
)
    requires
        forall|i: int| 0 <= i < head.len() ==> #[trigger] head[i] != '{',
    ensures
        replace_all(head + tail, placeholder(name), value) == head + replace_all(
            tail,
            placeholder(name),
            value,
        ),
    decreases head.len(),
{
    if head.len() == 0 {
        assert(head + tail =~= tail);
        assert(head + replace_all(tail, placeholder(name), value) =~= replace_all(
            tail,
            placeholder(name),
            value,
        ));
    } else {
        let s = head + tail;
        assert(!occurs_at(s, placeholder(name), 0)) by {
            if occurs_at(s, placeholder(name), 0) {
                assert(s.subrange(0, placeholder(name).len() as int)[0] == placeholder(name)[0]);
            }
        }
        assert(s.skip(1) =~= head.skip(1) + tail);
        lemma_replace_skips(head.skip(1), tail, name, value);
        assert(seq![s[0]] + (head.skip(1) + replace_all(tail, placeholder(name), value)) =~= head
            + replace_all(tail, placeholder(name), value));
    }
}

/// Filling leaves a beginning without opening braces alone.
proof fn lemma_filled_skips(
    head: Seq<char>,
    tail: Seq<char>,
    values: Map<Seq<char>, Seq<char>>,
)
    requires
        forall|i: int| 0 <= i < head.len() ==> #[trigger] head[i] != '{',
    ensures
        filled(head + tail, values) == head + filled(tail, values),
    decreases head.len(),
{
    if head.len() == 0 {
        assert(head + tail =~= tail);
        assert(head + filled(tail, values) =~= filled(tail, values));
    } else {
        let s = head + tail;
        assert(s.skip(1) =~= head.skip(1) + tail);
        lemma_filled_skips(head.skip(1), tail, values);
        assert(seq![s[0]] + (head.skip(1) + filled(tail, values)) =~= head + filled(tail, values));
    }
}

/// Where the first closing brace behind position `i` of a flat text stands, and what precedes it.
proof fn lemma_flat_run(text: Seq<char>, i: int)
    requires
        0 <= i <= text.len(),
        flat(text.skip(i), true),
    ensures
        i <= find_char(text, '}', i) <= text.len(),
        forall|j: int| i <= j < find_char(text, '}', i) ==> text[j] != '{' && text[j] != '}',
        find_char(text, '}', i) < text.len() ==> text[find_char(text, '}', i)] == '}' && flat(
            text.skip(find_char(text, '}', i) + 1),
            false,
        ),
    decreases text.len() - i,
{
    if i < text.len() {
        assert(text.skip(i).skip(1) =~= text.skip(i + 1));
        assert(text.skip(i)[0] == text[i]);
        if text[i] != '}' {
            lemma_flat_run(text, i + 1);
        }
    }
}

/// One more replacement pass over a filled flat text fills in one more name.
proof fn lemma_fill_one_more(
    text: Seq<char>,
    inside: bool,
    values: Map<Seq<char>, Seq<char>>,
    name: Seq<char>,
    value: Seq<char>,
)
    requires
        flat(text, inside),
        braceless(name),
        !values.contains_key(name),
        forall|n: Seq<char>| values.contains_key(n) ==> braceless(#[trigger] values[n]),
    ensures
        replace_all(filled(text, values), placeholder(name), value) == filled(
            text,
            values.insert(name, value),
        ),
    decreases text.len(),
{
    let more = values.insert(name, value);
    let wanted = placeholder(name);
    if text.len() == 0 {
    } else if text[0] != '{' {
        let tail = text.skip(1);
        let head = seq![text[0]];
        let next_inside = if text[0] == '}' { false } else { inside };
        lemma_fill_one_more(tail, next_inside, values, name, value);
        lemma_replace_skips(head, filled(tail, values), name, value);
    } else {
        let end = find_char(text, '}', 1);
        lemma_flat_run(text, 1);
        let body = text.subrange(1, end);
        assert(braceless(body));
        if end < text.len() {
            let tail = text.skip(end + 1);
            lemma_fill_one_more(tail, false, values, name, value);
            let closing = body + seq!['}'];
            assert(text.skip(1) =~= closing + tail);
            if values.contains_key(body) {
                assert(more[body] == values[body]);
                lemma_replace_skips(values[body], filled(tail, values), name, value);
            } else {
                lemma_filled_skips(closing, tail, values);
                lemma_filled_skips(closing, tail, more);
                let whole = filled(text, values);
                assert(whole =~= placeholder(body) + filled(tail, values));
                if body == name {
                    assert(whole.subrange(0, wanted.len() as int) =~= wanted);
                    assert(occurs_at(whole, wanted, 0));
                    assert(whole.skip(wanted.len() as int) =~= filled(tail, values));
                } else {
                    assert(!occurs_at(whole, wanted, 0)) by {
                        if occurs_at(whole, wanted, 0) {
                            assert(whole.subrange(0, placeholder(body).len() as int)
                                =~= placeholder(body));
                            lemma_same_placeholder(whole, body, name);
                        }
                    }
                    assert(whole.skip(1) =~= closing + filled(tail, values));
                    lemma_replace_skips(closing, filled(tail, values), name, value);
                    assert(seq!['{'] + (closing + filled(tail, more)) =~= filled(text, more));
                }
            }
        } else {
            let tail = text.skip(1);
            assert(tail =~= body);
            lemma_filled_skips(tail, Seq::empty(), values);
            lemma_filled_skips(tail, Seq::empty(), more);
            assert(tail + Seq::empty() =~= tail);
            assert(filled(text, values) =~= text);
            assert(filled(text, more) =~= text);
            assert(!contains_text(text, wanted)) by {
                if contains_text(text, wanted) {
                    let i = choose|i: int| occurs_at(text, wanted, i);
                    let at = i + wanted.len() - 1;
                    assert(text.subrange(i, i + wanted.len())[wanted.len() - 1] == '}');
                    assert(text[at] == '}');
                }
            }
            lemma_replace_absent(text, wanted, value);
        }
    }
}

/// Two brace-free names whose placeholders start the same text are the same.
proof fn lemma_same_placeholder(text: Seq<char>, a: Seq<char>, b: Seq<char>)
    requires
        braceless(a),
        braceless(b),
        occurs_at(text, placeholder(b), 0),
        text.len() >= placeholder(a).len(),
        text.subrange(0, placeholder(a).len() as int) == placeholder(a),
    ensures
        a == b,
{
    let pa = placeholder(a);
    let pb = placeholder(b);
    assert forall|i: int| 0 <= i < pa.len() implies text[i] == #[trigger] pa[i] by {
        assert(text.subrange(0, pa.len() as int)[i] == pa[i]);
    }
    assert forall|i: int| 0 <= i < pb.len() implies text[i] == #[trigger] pb[i] by {
        assert(text.subrange(0, pb.len() as int)[i] == pb[i]);
    }
    if a.len() < b.len() {
        assert(pa[a.len() as int + 1] == '}');
        assert(pb[a.len() as int + 1] == b[a.len() as int]);
    } else if b.len() < a.len() {
        assert(pb[b.len() as int + 1] == '}');
        assert(pa[b.len() as int + 1] == a[b.len() as int]);
    }
    assert forall|i: int| 0 <= i < a.len() implies a[i] == b[i] by {
        assert(pa[i + 1] == a[i]);
        assert(pb[i + 1] == b[i]);
    }
    assert(a =~= b);
}

/// Where neither names nor values hold braces and no brace of the text opens inside braces, one pass
/// per variable comes to the same as exchanging all placeholders at once. So the order of the
/// variables makes no difference.
pub proof fn law_order_does_not_matter(text: Seq<char>, entries: Entries)
    requires
        distinct(entries),
        flat(text, false),
        forall|k: int|
            0 <= k < entries.len() ==> braceless((#[trigger] entries[k]).0) && braceless(
                entries[k].1,
            ),
    ensures
        substituted(text, entries) == filled(text, bindings(entries)),
    decreases entries.len(),
{
    if entries.len() == 0 {
        lemma_filled_nothing(text, bindings(entries));
    } else {
        let head = entries.drop_last();
        let name = entries.last().0;
        let value = entries.last().1;
        assert(distinct(head)) by {
            assert forall|a: int, b: int| 0 <= a < b < head.len() implies (#[trigger] head[a]).0
                != (#[trigger] head[b]).0 by {
                assert(entries[a].0 != entries[b].0);
            }
        }
        assert forall|k: int| 0 <= k < head.len() implies braceless((#[trigger] head[k]).0)
            && braceless(head[k].1) && head[k].0 != name by {
            assert(head[k] == entries[k]);
            assert(entries[k].0 != entries[entries.len() - 1].0);
        }
        assert(entries[entries.len() - 1] == entries.last());
        law_order_does_not_matter(text, head);
        lemma_absent(head, name);
        law_put(head, name, value);
        assert(put(head, name, value) =~= entries);
        assert forall|n: Seq<char>| bindings(head).contains_key(n) implies braceless(
            #[trigger] bindings(head)[n],
        ) by {
            lemma_find_name(head, n, 0);
        }
        lemma_fill_one_more(text, false, bindings(head), name, value);
        assert(substitutions(entries).drop_last() =~= substitutions(head));
    }
}

/// Without any names to fill in, filling changes nothing.
proof fn lemma_filled_nothing(text: Seq<char>, values: Map<Seq<char>, Seq<char>>)
    requires
        forall|n: Seq<char>| !values.contains_key(n),
    ensures
        filled(text, values) == text,
    decreases text.len(),
{
    if text.len() > 0 {
        lemma_filled_nothing(text.skip(1), values);
        assert(seq![text[0]] + text.skip(1) =~= text);
    }
}


proof fn lemma_flat_skips(head: Seq<char>, tail: Seq<char>, inside: bool)
    requires
        braceless(head),
        flat(tail, inside),
    ensures
        flat(head + tail, inside),
    decreases head.len(),
{
    if head.len() == 0 {
        assert(head + tail =~= tail);
    } else {
        let rest = head.skip(1);
        assert forall|i: int| 0 <= i < rest.len() implies #[trigger] rest[i] != '{' && rest[i]
            != '}' by {
            assert(rest[i] == head[i + 1]);
        }
        lemma_flat_skips(rest, tail, inside);
        assert((head + tail).skip(1) =~= rest + tail);
        assert((head + tail)[0] == head[0]);
    }
}

proof fn lemma_first_close(text: Seq<char>, i: int, end: int)
    requires
        0 <= i <= end < text.len(),
        forall|j: int| i <= j < end ==> #[trigger] text[j] != '}',
        text[end] == '}',
    ensures
        find_char(text, '}', i) == end,
    decreases end - i,
{
    if i < end {
        lemma_first_close(text, i + 1, end);
    }
}

/// Filling a flat text with values without braces gives a flat text in which nothing is left to
/// fill.
proof fn lemma_filled_once(text: Seq<char>, inside: bool, values: Map<Seq<char>, Seq<char>>)
    requires
        flat(text, inside),
        forall|n: Seq<char>| values.contains_key(n) ==> braceless(#[trigger] values[n]),
    ensures
        flat(filled(text, values), inside),
        filled(filled(text, values), values) == filled(text, values),
    decreases text.len(),
{
    let whole = filled(text, values);
    if text.len() == 0 {
    } else if text[0] != '{' {
        let tail = text.skip(1);
        let next_inside = if text[0] == '}' {
            false
        } else {
            inside
        };
        lemma_filled_once(tail, next_inside, values);
        assert(whole.skip(1) =~= filled(tail, values));
    } else {
        let end = find_char(text, '}', 1);
        lemma_flat_run(text, 1);
        let body = text.subrange(1, end);
        assert(braceless(body));
        if end < text.len() {
            let tail = text.skip(end + 1);
            let done = filled(tail, values);
            lemma_filled_once(tail, false, values);
            if values.contains_key(body) {
                lemma_flat_skips(values[body], done, false);
                lemma_filled_skips(values[body], done, values);
            } else {
                let closing = body + seq!['}'];
                assert(text.skip(1) =~= closing + tail);
                lemma_filled_skips(closing, tail, values);
                lemma_filled_skips(closing, done, values);
                assert(whole =~= placeholder(body) + done);
                assert(whole.skip(1) =~= closing + done);
                assert(whole.skip(1) =~= body + (seq!['}'] + done));
                assert((seq!['}'] + done).skip(1) =~= done);
                assert(flat(seq!['}'] + done, true));
                lemma_flat_skips(body, seq!['}'] + done, true);
                assert forall|j: int| 1 <= j < end implies #[trigger] whole[j] != '}' by {
                    assert(whole[j] == body[j - 1]);
                }
                lemma_first_close(whole, 1, end);
                assert(whole.subrange(1, end) =~= body);
            }
        } else {
            let tail = text.skip(1);
            assert(tail =~= body);
            lemma_filled_skips(tail, Seq::empty(), values);
            assert(tail + Seq::empty() =~= tail);
            assert(whole =~= text);
        }
    }
}

/// Substituting a second time changes nothing more, where neither names nor values hold braces
/// and no brace of the text opens inside braces.
pub proof fn law_substitution_is_final(text: Seq<char>, entries: Entries)
    requires
        distinct(entries),
        flat(text, false),
        forall|k: int|
            0 <= k < entries.len() ==> braceless((#[trigger] entries[k]).0) && braceless(
                entries[k].1,
            ),
    ensures
        substituted(substituted(text, entries), entries) == substituted(text, entries),
{
    let values = bindings(entries);
    assert forall|n: Seq<char>| values.contains_key(n) implies braceless(
        #[trigger] values[n],
    ) by {
        lemma_find_name(entries, n, 0);
    }
    law_order_does_not_matter(text, entries);
    lemma_filled_once(text, false, values);
    law_order_does_not_matter(filled(text, values), entries);
}

proof fn lemma_one_variable(text: Seq<char>, name: Seq<char>, value: Seq<char>)
    ensures
        substituted(text, seq![(name, value)]) == replace_all(text, placeholder(name), value),
{
    let pairs = substitutions(seq![(name, value)]);
    assert(pairs.drop_last() =~= Seq::empty());
    assert(replace_each(text, pairs.drop_last()) == text);
    assert(pairs.last() == (placeholder(name), value));
}

/// The placeholder of a variable is its name in braces: where only one variable is set, the first
/// placeholder gives way to the value, what precedes it is kept, and so on behind it.
pub proof fn law_placeholders_give_way_to_values(
    head: Seq<char>,
    name: Seq<char>,
    value: Seq<char>,
    tail: Seq<char>,
)
    requires
        forall|i: int|
            0 <= i < head.len() ==> !(#[trigger] occurs_at(
                head + (seq!['{'] + name + seq!['}']) + tail,
                seq!['{'] + name + seq!['}'],
                i,
            )),
    ensures
        substituted(head + (seq!['{'] + name + seq!['}']) + tail, seq![(name, value)]) == head
            + value + substituted(tail, seq![(name, value)]),
{
    let wanted = seq!['{'] + name + seq!['}'];
    lemma_one_variable(head + wanted + tail, name, value);
    lemma_one_variable(tail, name, value);
    law_replacement_goes_on_behind(head, wanted, tail, value);
}

/// Without variables a text stays as it is; with one more, its placeholder gives way in what the
/// others left.
pub proof fn law_variables_are_filled_in_one_by_one(
    text: Seq<char>,
    entries: Entries,
    name: Seq<char>,
    value: Seq<char>,
)
    ensures
        substituted(text, Seq::empty()) == text,
        substituted(text, entries.push((name, value))) == substituted(
            substituted(text, entries),
            seq![(name, value)],
        ),
{
    let all = entries.push((name, value));
    lemma_one_variable(substituted(text, entries), name, value);
    assert(substitutions(Seq::<(Seq<char>, Seq<char>)>::empty()) =~= Seq::empty());
    assert(substitutions(all).drop_last() =~= substitutions(entries));
    assert(substitutions(all).last() == (placeholder(name), value));
}

}
