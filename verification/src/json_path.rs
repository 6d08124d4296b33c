//! Values picked out of JSON by a path such as `foo.bar[2].baz`.

use crate::text::{
    chars_of, decimal, find_char, law_decimal_reads_back, lemma_find_char, lemma_find_char_grows,
    number_in, parse_number, position_of, string_of,
};
use serde_json::Value;
use vstd::prelude::*;

verus! {

broadcast use vstd::seq::group_seq_axioms;

// ---------------------------------------------------------------------------
// JSON values
// ---------------------------------------------------------------------------

/// A JSON value of `serde_json`. What it holds is told by [`json_node`].
#[verifier::external_type_specification]
#[verifier::external_body]
pub struct ExValue(Value);

/// One level of a JSON value.
pub enum JsonNode {
    Null,
    Text(Seq<char>),
    Array(Seq<Value>),
    Object(Map<Seq<char>, Value>),
    /// A boolean or a number.
    Scalar,
}

/// What a JSON value holds: the text of a string, the items of an array, the members of an
/// object.
pub uninterp spec fn json_node(value: Value) -> JsonNode;

/// The JSON value that `serde_json::from_str` reads out of a text, if the text is JSON.
pub uninterp spec fn json_document(text: Seq<char>) -> Option<Value>;

/// The compact JSON that `Value` displays itself as.
pub uninterp spec fn json_text(value: Value) -> Seq<char>;

/// `serde_json::from_str`, with the error dropped. What it returns depends on the text alone.
#[verifier::external_body]
fn parse_json(text: &str) -> (result: Option<Value>)
    ensures
        result == json_document(text@),
{
    serde_json::from_str(text).ok()
}

/// `Value::get` with a text: the member of an object with that name; nothing where there is no
/// such member or the value is no object.
#[verifier::external_body]
fn member<'a>(value: &'a Value, key: &str) -> (result: Option<&'a Value>)
    ensures
        match result {
            Some(found) => child(*value, SegmentView::Key(key@)) == Some(*found),
            None => child(*value, SegmentView::Key(key@)) is None,
        },
{
    value.get(key)
}

/// `Value::get` with a number: the item of an array at that position; nothing where there is no
/// such item or the value is no array.
#[verifier::external_body]
fn item<'a>(value: &'a Value, index: usize) -> (result: Option<&'a Value>)
    ensures
        match result {
            Some(found) => child(*value, SegmentView::Index(index)) == Some(*found),
            None => child(*value, SegmentView::Index(index)) is None,
        },
{
    value.get(index)
}

/// `Value::as_str`: the text of a string; nothing of any other value.
#[verifier::external_body]
fn string_value(value: &Value) -> (result: Option<&str>)
    ensures
        match result {
            Some(text) => json_node(*value) == JsonNode::Text(text@),
            None => !(json_node(*value) is Text),
        },
{
    value.as_str()
}

/// `Value::is_null`.
#[verifier::external_body]
fn is_null(value: &Value) -> (result: bool)
    ensures
        result == (json_node(*value) is Null),
{
    value.is_null()
}

/// `Value::to_string`, that is, the compact JSON of the value.
#[verifier::external_body]
fn display(value: &Value) -> (result: String)
    ensures
        result@ == json_text(*value),
{
    value.to_string()
}

// ---------------------------------------------------------------------------
// Paths
// ---------------------------------------------------------------------------

/// A step of a path into JSON.
pub enum JsonSegment {
    Key(String),
    Index(usize),
}

/// The contents of a [`JsonSegment`].
pub enum SegmentView {
    Key(Seq<char>),
    Index(usize),
}

impl View for JsonSegment {
    type V = SegmentView;

    open spec fn view(&self) -> SegmentView {
        match *self {
            JsonSegment::Key(key) => SegmentView::Key(key@),
            JsonSegment::Index(index) => SegmentView::Index(index),
        }
    }
}

/// The contents of a list of segments.
pub open spec fn segments_view(segments: Seq<JsonSegment>) -> Seq<SegmentView> {
    segments.map_values(|segment: JsonSegment| segment@)
}

/// The end of the key that reaches from `i` on: a dot or an opening bracket, or the end.
pub open spec fn key_end(path: Seq<char>, i: int) -> int
    decreases path.len() - i,
{
    if i >= path.len() {
        path.len() as int
    } else if path[i] == '.' || path[i] == '[' {
        i
    } else {
        key_end(path, i + 1)
    }
}

/// The segments of `path` from position `i` on. One dot before a segment is skipped. Brackets
/// hold an array index, and count for nothing where they hold something else; anything else up
/// to the next dot or bracket is a key.
pub open spec fn segments_from(path: Seq<char>, i: int) -> Seq<SegmentView>
    decreases path.len() - i,
{
    if i < 0 || i >= path.len() {
        Seq::empty()
    } else {
        let start = if path[i] == '.' {
            i + 1
        } else {
            i
        };
        if start < path.len() && path[start] == '[' {
            let close = find_char(path, ']', start + 1);
            if start < close <= path.len() {
                let rest = if close < path.len() {
                    segments_from(path, close + 1)
                } else {
                    Seq::empty()
                };
                match number_in(path.subrange(start + 1, close)) {
                    Some(index) => seq![SegmentView::Index(index)] + rest,
                    None => rest,
                }
            } else {
                Seq::empty()
            }
        } else {
            let end = key_end(path, start);
            if start < end <= path.len() {
                seq![SegmentView::Key(path.subrange(start, end))] + segments_from(path, end)
            } else if i < start {
                segments_from(path, start)
            } else {
                Seq::empty()
            }
        }
    }
}

fn find_key_end(path: &Vec<char>, i: usize) -> (end: usize)
    requires
        i <= path@.len(),
    ensures
        end == key_end(path@, i as int),
        i <= end <= path@.len(),
        i < path@.len() && path@[i as int] != '.' && path@[i as int] != '[' ==> i < end,
{
    let mut j: usize = i;
    while j < path.len() && path[j] != '.' && path[j] != '['
        invariant
            i <= j <= path@.len(),
            key_end(path@, i as int) == key_end(path@, j as int),
        decreases path@.len() - j,
    {
        j += 1;
    }
    j
}

/// The segments of a path.
pub fn parse_json_path_segments(path: &str) -> (segments: Vec<JsonSegment>)
    ensures
        segments_view(segments@) == segments_from(path@, 0),
{
    let chars = chars_of(path);
    let mut segments: Vec<JsonSegment> = Vec::new();
    let mut i: usize = 0;
    assert(segments_view(segments@) + segments_from(path@, 0) =~= segments_from(path@, 0));
    while i < chars.len()
        invariant
            i <= chars@.len(),
            chars@ == path@,
            segments_from(path@, 0) == segments_view(segments@) + segments_from(path@, i as int),
        decreases chars@.len() - i,
    {
        let ghost before = segments_view(segments@);
        let ghost here = i as int;
        let start = if chars[i] == '.' {
            i + 1
        } else {
            i
        };
        if start < chars.len() && chars[start] == '[' {
            let close = position_of(&chars, ']', start + 1);
            let mut digits: Vec<char> = Vec::new();
            let mut j: usize = start + 1;
            while j < close
                invariant
                    start + 1 <= j <= close <= chars@.len(),
                    digits@ == chars@.subrange(start + 1, j as int),
                decreases close - j,
            {
                digits.push(chars[j]);
                assert(chars@.subrange(start + 1, j + 1) =~= chars@.subrange(
                    start + 1,
                    j as int,
                ).push(chars@[j as int]));
                j += 1;
            }
            let next = if close < chars.len() {
                close + 1
            } else {
                close
            };
            match parse_number(&digits) {
                Some(index) => {
                    segments.push(JsonSegment::Index(index));
                    assert(segments_view(segments@) =~= before.push(SegmentView::Index(index)));
                    assert(before + (seq![SegmentView::Index(index)] + segments_from(
                        path@,
                        next as int,
                    )) =~= segments_view(segments@) + segments_from(path@, next as int));
                },
                None => {},
            }
            i = next;
        } else {
            let end = find_key_end(&chars, start);
            if start < end {
                let key = string_of(&chars, start, end);
                let ghost text = key@;
                segments.push(JsonSegment::Key(key));
                assert(segments_view(segments@) =~= before.push(SegmentView::Key(text)));
                assert(before + (seq![SegmentView::Key(text)] + segments_from(path@, end as int))
                    =~= segments_view(segments@) + segments_from(path@, end as int));
            }
            i = end;
        }
    }
    assert(segments_view(segments@) + segments_from(path@, i as int) =~= segments_view(segments@));
    segments
}

// ---------------------------------------------------------------------------
// Extraction
// ---------------------------------------------------------------------------

/// The part of `value` that one segment leads to.
pub open spec fn child(value: Value, segment: SegmentView) -> Option<Value> {
    match (segment, json_node(value)) {
        (SegmentView::Key(key), JsonNode::Object(members)) => if members.contains_key(key) {
            Some(members[key])
        } else {
            None
        },
        (SegmentView::Index(index), JsonNode::Array(items)) => if index < items.len() {
            Some(items[index as int])
        } else {
            None
        },
        _ => None,
    }
}

/// The part of `value` that the segments lead to.
pub open spec fn descendant(value: Value, segments: Seq<SegmentView>) -> Option<Value>
    decreases segments.len(),
{
    if segments.len() == 0 {
        Some(value)
    } else {
        match descendant(value, segments.drop_last()) {
            Some(parent) => child(parent, segments.last()),
            None => None,
        }
    }
}

/// A JSON value as a plain text: a string without its quotes, nothing for null, JSON otherwise.
pub open spec fn plain_text(value: Value) -> Option<Seq<char>> {
    match json_node(value) {
        JsonNode::Text(text) => Some(text),
        JsonNode::Null => None,
        _ => Some(json_text(value)),
    }
}

/// What `path` picks out of `value`.
pub open spec fn picked(value: Value, path: Seq<char>) -> Option<Seq<char>> {
    match descendant(value, segments_from(path, 0)) {
        Some(part) => plain_text(part),
        None => None,
    }
}

proof fn lemma_descendant_lost(value: Value, segments: Seq<SegmentView>, n: int)
    requires
        0 <= n <= segments.len(),
        descendant(value, segments.take(n)) is None,
    ensures
        descendant(value, segments) is None,
    decreases segments.len() - n,
{
    if n < segments.len() {
        assert(segments.take(n + 1).drop_last() =~= segments.take(n));
        lemma_descendant_lost(value, segments, n + 1);
    } else {
        assert(segments.take(n) =~= segments);
    }
}

/// What `path` picks out of a JSON value.
pub fn pick(value: &Value, path: &str) -> (result: Option<String>)
    ensures
        match result {
            Some(text) => picked(*value, path@) == Some(text@),
            None => picked(*value, path@) is None,
        },
{
    let segments = parse_json_path_segments(path);
    let ghost wanted = segments_view(segments@);
    let mut current = value;
    let mut i: usize = 0;
    assert(descendant(*value, wanted.take(0)) == Some(*value));
    while i < segments.len()
        invariant
            i <= segments@.len(),
            wanted == segments_view(segments@),
            wanted == segments_from(path@, 0),
            descendant(*value, wanted.take(i as int)) == Some(*current),
        decreases segments@.len() - i,
    {
        assert(wanted[i as int] == segments@[i as int]@);
        assert(wanted.take(i + 1).drop_last() =~= wanted.take(i as int));
        let next = match &segments[i] {
            JsonSegment::Key(key) => member(current, key.as_str()),
            JsonSegment::Index(index) => item(current, *index),
        };
        match next {
            Some(found) => {
                current = found;
            },
            None => {
                proof {
                    lemma_descendant_lost(*value, wanted, i + 1);
                }
                return None;
            },
        }
        i += 1;
    }
    assert(wanted.take(i as int) =~= wanted);
    match string_value(current) {
        Some(text) => Some(text.to_owned()),
        None => if is_null(current) {
            None
        } else {
            Some(display(current))
        },
    }
}

/// What `path` picks out of a JSON text; nothing where the text is not JSON.
pub open spec fn extracted(text: Seq<char>, path: Seq<char>) -> Option<Seq<char>> {
    match json_document(text) {
        Some(value) => picked(value, path),
        None => None,
    }
}

/// What a path picks out of a JSON text. The path knows dots and array indices:
/// `[0].session_id`, `.name`, `foo.bar[2].baz`.
pub fn extract_json_path(text: &str, path: &str) -> (result: Option<String>)
    ensures
        match result {
            Some(found) => extracted(text@, path@) == Some(found@),
            None => extracted(text@, path@) is None,
        },
{
    match parse_json(text) {
        Some(value) => pick(&value, path),
        None => None,
    }
}

// ---------------------------------------------------------------------------
// Laws
// ---------------------------------------------------------------------------

/// A segment as it is written in a path.
pub open spec fn written(segment: SegmentView) -> Seq<char> {
    match segment {
        SegmentView::Key(key) => seq!['.'] + key,
        SegmentView::Index(index) => seq!['['] + decimal(index as nat) + seq![']'],
    }
}

/// Segments as they are written in a path.
pub open spec fn written_path(segments: Seq<SegmentView>) -> Seq<char>
    decreases segments.len(),
{
    if segments.len() == 0 {
        Seq::empty()
    } else {
        written(segments[0]) + written_path(segments.skip(1))
    }
}

/// A key that a path can hold: not empty, and without dots and opening brackets.
pub open spec fn writable(segment: SegmentView) -> bool {
    match segment {
        SegmentView::Key(key) => key.len() > 0 && forall|i: int|
            0 <= i < key.len() ==> #[trigger] key[i] != '.' && key[i] != '[',
        SegmentView::Index(_) => true,
    }
}

proof fn lemma_key_end(path: Seq<char>, i: int, end: int)
    requires
        0 <= i <= end <= path.len(),
        forall|j: int| i <= j < end ==> #[trigger] path[j] != '.' && path[j] != '[',
        end < path.len() ==> path[end] == '.' || path[end] == '[',
    ensures
        key_end(path, i) == end,
    decreases end - i,
{
    if i < end {
        lemma_key_end(path, i + 1, end);
    }
}

proof fn lemma_close(path: Seq<char>, i: int, end: int)
    requires
        0 <= i <= end < path.len(),
        forall|j: int| i <= j < end ==> #[trigger] path[j] != ']',
        path[end] == ']',
    ensures
        find_char(path, ']', i) == end,
    decreases end - i,
{
    if i < end {
        lemma_close(path, i + 1, end);
    }
}

/// Segments written behind anything are read from there.
proof fn lemma_written_path(before: Seq<char>, segments: Seq<SegmentView>)
    requires
        forall|k: int| 0 <= k < segments.len() ==> writable(#[trigger] segments[k]),
    ensures
        segments_from(before + written_path(segments), before.len() as int) == segments,
    decreases segments.len(),
{
    let path = before + written_path(segments);
    let i = before.len() as int;
    if segments.len() == 0 {
        assert(segments_from(path, i) =~= segments);
    } else {
        let first = segments[0];
        let rest = segments.skip(1);
        let tail = written_path(rest);
        assert forall|k: int| 0 <= k < rest.len() implies writable(#[trigger] rest[k]) by {
            assert(rest[k] == segments[k + 1]);
        }
        assert(writable(segments[0]));
        let next = before + written(first);
        assert(path =~= next + tail);
        lemma_written_path(next, rest);
        assert(seq![first] + rest =~= segments);
        assert(tail.len() > 0 ==> tail[0] == '.' || tail[0] == '[') by {
            if rest.len() > 0 {
                assert(tail[0] == written(rest[0])[0]);
            }
        }
        match first {
            SegmentView::Key(key) => {
                let start = i + 1;
                let end = start + key.len();
                assert(path[i] == '.');
                assert forall|j: int| start <= j < end implies #[trigger] path[j] != '.' && path[j]
                    != '[' by {
                    assert(path[j] == key[j - start]);
                }
                if end < path.len() {
                    assert(path[end] == tail[0]);
                }
                lemma_key_end(path, start, end);
                assert(path[start] == key[0]);
                assert(path.subrange(start, end) =~= key);
            },
            SegmentView::Index(index) => {
                let digits = decimal(index as nat);
                law_decimal_reads_back(index as nat);
                let end = i + 1 + digits.len();
                assert(path[i] == '[');
                assert forall|j: int| i + 1 <= j < end implies #[trigger] path[j] != ']' by {
                    assert(path[j] == digits[j - i - 1]);
                }
                assert(path[end] == ']');
                lemma_close(path, i + 1, end);
                assert(path.subrange(i + 1, end) =~= digits);
            },
        }
    }
}

/// A path reads back as the segments it was written from.
pub proof fn law_path_reads_back(segments: Seq<SegmentView>)
    requires
        forall|k: int| 0 <= k < segments.len() ==> writable(#[trigger] segments[k]),
    ensures
        segments_from(written_path(segments), 0) == segments,
{
    lemma_written_path(Seq::empty(), segments);
    assert(Seq::<char>::empty() + written_path(segments) =~= written_path(segments));
}

/// The dot before a leading key can be left out.
pub proof fn law_leading_dot_is_optional(segments: Seq<SegmentView>)
    requires
        forall|k: int| 0 <= k < segments.len() ==> writable(#[trigger] segments[k]),
        segments.len() > 0,
        segments[0] is Key,
    ensures
        segments_from(written_path(segments).skip(1), 0) == segments,
{
    let key = segments[0]->Key_0;
    let rest = segments.skip(1);
    let tail = written_path(rest);
    let path = written_path(segments).skip(1);
    assert(writable(segments[0]));
    assert forall|k: int| 0 <= k < rest.len() implies writable(#[trigger] rest[k]) by {
        assert(rest[k] == segments[k + 1]);
    }
    assert(path =~= key + tail);
    lemma_written_path(key, rest);
    assert(tail.len() > 0 ==> tail[0] == '.' || tail[0] == '[') by {
        if rest.len() > 0 {
            assert(tail[0] == written(rest[0])[0]);
        }
    }
    let end = key.len() as int;
    assert forall|j: int| 0 <= j < end implies #[trigger] path[j] != '.' && path[j] != '[' by {
        assert(path[j] == key[j]);
    }
    if end < path.len() {
        assert(path[end] == tail[0]);
    }
    lemma_key_end(path, 0, end);
    assert(path[0] == key[0]);
    assert(path.subrange(0, end) =~= key);
    assert(seq![segments[0]] + rest =~= segments);
}


/// Every opening bracket has a closing one behind it.
pub open spec fn brackets_closed(path: Seq<char>) -> bool {
    forall|i: int|
        0 <= i < path.len() && #[trigger] path[i] == '[' ==> exists|j: int|
            i < j < path.len() && #[trigger] path[j] == ']'
}

proof fn lemma_close_found(path: Seq<char>, i: int, j: int)
    requires
        0 <= i <= j < path.len(),
        path[j] == ']',
    ensures
        i <= find_char(path, ']', i) <= j,
    decreases j - i,
{
    if path[i] != ']' {
        lemma_close_found(path, i + 1, j);
    }
}

proof fn lemma_key_end_grows(path: Seq<char>, more: Seq<char>, i: int)
    requires
        0 <= i <= path.len(),
        more.len() > 0,
        more[0] == '.',
    ensures
        i <= key_end(path, i) <= path.len(),
        key_end(path + more, i) == key_end(path, i),
    decreases path.len() - i,
{
    if i < path.len() {
        assert((path + more)[i] == path[i]);
        if path[i] != '.' && path[i] != '[' {
            lemma_key_end_grows(path, more, i + 1);
        }
    } else {
        assert((path + more)[i] == more[0]);
    }
}

/// A path that goes on with a dot is first read as it would be by itself.
proof fn lemma_path_goes_on(path: Seq<char>, more: Seq<char>, i: int)
    requires
        0 <= i <= path.len(),
        brackets_closed(path),
        more.len() > 0,
        more[0] == '.',
    ensures
        segments_from(path + more, i) == segments_from(path, i) + segments_from(
            path + more,
            path.len() as int,
        ),
    decreases path.len() - i,
{
    let whole = path + more;
    let tail = segments_from(whole, path.len() as int);
    if i == path.len() {
        assert(segments_from(path, i) + tail =~= tail);
    } else {
        assert(whole[i] == path[i]);
        let start = if path[i] == '.' {
            i + 1
        } else {
            i
        };
        if start < path.len() && path[start] == '[' {
            assert(whole[start] == path[start]);
            let j = choose|j: int| start < j < path.len() && #[trigger] path[j] == ']';
            lemma_close_found(path, start + 1, j);
            lemma_find_char_grows(path, more, ']', start + 1);
            let close = find_char(path, ']', start + 1);
            assert(whole.subrange(start + 1, close) =~= path.subrange(start + 1, close));
            lemma_path_goes_on(path, more, close + 1);
            let rest = segments_from(path, close + 1);
            match number_in(path.subrange(start + 1, close)) {
                Some(index) => {
                    assert(seq![SegmentView::Index(index)] + (rest + tail) =~= seq![
                        SegmentView::Index(index),
                    ] + rest + tail);
                },
                None => {},
            }
        } else {
            lemma_key_end_grows(path, more, start);
            lemma_key_end_grows(path, more, i + 1);
            let end = key_end(path, start);
            assert(start < path.len() ==> whole[start] == path[start]);
            assert(start == path.len() ==> whole[start] == more[0]);
            if start < end {
                let key = path.subrange(start, end);
                assert(whole.subrange(start, end) =~= key);
                lemma_path_goes_on(path, more, end);
                let rest = segments_from(path, end);
                assert(seq![SegmentView::Key(key)] + (rest + tail) =~= seq![SegmentView::Key(key)]
                    + rest + tail);
            } else {
                lemma_path_goes_on(path, more, start);
            }
        }
    }
}

proof fn lemma_key_end_shift(path: Seq<char>, k: int, i: int)
    requires
        0 <= k,
        0 <= i,
        k + i <= path.len(),
    ensures
        key_end(path, k + i) == k + key_end(path.skip(k), i),
    decreases path.len() - (k + i),
{
    if k + i < path.len() {
        assert(path.skip(k)[i] == path[k + i]);
        lemma_key_end_shift(path, k, i + 1);
    }
}

proof fn lemma_find_close_shift(path: Seq<char>, k: int, i: int)
    requires
        0 <= k,
        0 <= i,
        k + i <= path.len(),
    ensures
        find_char(path, ']', k + i) == k + find_char(path.skip(k), ']', i),
    decreases path.len() - (k + i),
{
    if k + i < path.len() {
        assert(path.skip(k)[i] == path[k + i]);
        lemma_find_close_shift(path, k, i + 1);
    }
}

/// What stands before a place in a path does not matter for what is read from there.
proof fn lemma_segments_shift(path: Seq<char>, k: int, i: int)
    requires
        0 <= k,
        0 <= i,
        k + i <= path.len(),
    ensures
        segments_from(path, k + i) == segments_from(path.skip(k), i),
    decreases path.len() - (k + i),
{
    let part = path.skip(k);
    if k + i < path.len() {
        assert(part[i] == path[k + i]);
        let start = if part[i] == '.' {
            i + 1
        } else {
            i
        };
        assert(k + start < path.len() ==> part[start] == path[k + start]);
        if start < part.len() && part[start] == '[' {
            lemma_find_close_shift(path, k, start + 1);
            lemma_find_char(part, ']', start + 1);
            let close = find_char(part, ']', start + 1);
            assert(path.subrange(k + start + 1, k + close) =~= part.subrange(start + 1, close));
            if close < part.len() {
                lemma_segments_shift(path, k, close + 1);
            }
        } else {
            lemma_key_end_shift(path, k, start);
            let end = key_end(part, start);
            if start < end <= part.len() {
                assert(path.subrange(k + start, k + end) =~= part.subrange(start, end));
                lemma_segments_shift(path, k, end);
            } else if i < start {
                lemma_segments_shift(path, k, start);
            }
        }
    }
}

/// Two paths joined with a dot have the segments of the one and then those of the other, where
/// no bracket is left open before the dot.
pub proof fn law_paths_join(head: Seq<char>, tail: Seq<char>)
    requires
        brackets_closed(head),
    ensures
        segments_from(head + seq!['.'] + tail, 0) == segments_from(head, 0) + segments_from(
            tail,
            0,
        ),
{
    let more = seq!['.'] + tail;
    let whole = head + seq!['.'] + tail;
    let n = head.len() as int;
    assert(whole =~= head + more);
    lemma_path_goes_on(head, more, 0);
    lemma_segments_shift(whole, n + 1, 0);
    assert(whole.skip(n + 1) =~= tail);
    assert(whole[n] == '.');
    assert(segments_from(whole, n) == segments_from(whole, n + 1));
}


proof fn lemma_key_is_plain(path: Seq<char>, i: int)
    requires
        0 <= i,
    ensures
        forall|j: int| i <= j < key_end(path, i) ==> #[trigger] path[j] != '.' && path[j] != '[',
    decreases path.len() - i,
{
    if i < path.len() && path[i] != '.' && path[i] != '[' {
        lemma_key_is_plain(path, i + 1);
    }
}

proof fn lemma_segments_are_writable(path: Seq<char>, i: int, k: int)
    requires
        0 <= k < segments_from(path, i).len(),
    ensures
        writable(segments_from(path, i)[k]),
    decreases path.len() - i,
{
    let segments = segments_from(path, i);
    let start = if path[i] == '.' {
        i + 1
    } else {
        i
    };
    if start < path.len() && path[start] == '[' {
        let close = find_char(path, ']', start + 1);
        let rest = segments_from(path, close + 1);
        match number_in(path.subrange(start + 1, close)) {
            Some(_) => {
                if k > 0 {
                    assert(segments[k] == rest[k - 1]);
                    lemma_segments_are_writable(path, close + 1, k - 1);
                }
            },
            None => {
                lemma_segments_are_writable(path, close + 1, k);
            },
        }
    } else {
        let end = key_end(path, start);
        if start < end <= path.len() {
            if k > 0 {
                assert(segments[k] == segments_from(path, end)[k - 1]);
                lemma_segments_are_writable(path, end, k - 1);
            } else {
                lemma_key_is_plain(path, start);
                let key = path.subrange(start, end);
                assert forall|j: int| 0 <= j < key.len() implies #[trigger] key[j] != '.' && key[j]
                    != '[' by {
                    assert(key[j] == path[start + j]);
                }
            }
        } else {
            lemma_segments_are_writable(path, start, k);
        }
    }
}

/// No key of a path is empty or holds a dot or an opening bracket. So the segments of any path
/// can be written as a path again, which has the same segments.
pub proof fn law_keys_are_plain(path: Seq<char>)
    ensures
        forall|k: int|
            0 <= k < segments_from(path, 0).len() ==> writable(
                #[trigger] segments_from(path, 0)[k],
            ),
        segments_from(written_path(segments_from(path, 0)), 0) == segments_from(path, 0),
{
    assert forall|k: int| 0 <= k < segments_from(path, 0).len() implies writable(
        #[trigger] segments_from(path, 0)[k],
    ) by {
        lemma_segments_are_writable(path, 0, k);
    }
    law_path_reads_back(segments_from(path, 0));
}

proof fn lemma_descendant_joins(value: Value, a: Seq<SegmentView>, b: Seq<SegmentView>)
    ensures
        descendant(value, a + b) == (match descendant(value, a) {
            Some(part) => descendant(part, b),
            None => None,
        }),
    decreases b.len(),
{
    if b.len() == 0 {
        assert(a + b =~= a);
    } else {
        lemma_descendant_joins(value, a, b.drop_last());
        assert((a + b).drop_last() =~= a + b.drop_last());
        assert((a + b).last() == b.last());
    }
}

/// A path joined of two leads where the second leads from where the first leads.
pub proof fn law_joined_paths_lead_on(value: Value, head: Seq<char>, tail: Seq<char>)
    requires
        brackets_closed(head),
    ensures
        picked(value, head + seq!['.'] + tail) == (match descendant(
            value,
            segments_from(head, 0),
        ) {
            Some(part) => picked(part, tail),
            None => None,
        }),
{
    law_paths_join(head, tail);
    lemma_descendant_joins(value, segments_from(head, 0), segments_from(tail, 0));
}

/// The empty path picks the value itself: the text of a string, nothing of null, and JSON for
/// anything else.
pub proof fn law_the_empty_path(value: Value)
    ensures
        match json_node(value) {
            JsonNode::Text(text) => picked(value, Seq::empty()) == Some(text),
            JsonNode::Null => picked(value, Seq::empty()) is None,
            _ => picked(value, Seq::empty()) == Some(json_text(value)),
        },
{
    assert(segments_from(Seq::<char>::empty(), 0) =~= Seq::empty());
}

/// A key leads to the member of an object with that name, and an index in brackets to the item of
/// an array at that position; they lead nowhere where there is none.
pub proof fn law_where_segments_lead(value: Value, key: Seq<char>, index: usize)
    requires
        writable(SegmentView::Key(key)),
    ensures
        descendant(value, segments_from(key, 0)) == (match json_node(value) {
            JsonNode::Object(members) => if members.contains_key(key) {
                Some(members[key])
            } else {
                None
            },
            _ => None,
        }),
        descendant(
            value,
            segments_from(seq!['['] + decimal(index as nat) + seq![']'], 0),
        ) == (match json_node(value) {
            JsonNode::Array(items) => if index < items.len() {
                Some(items[index as int])
            } else {
                None
            },
            _ => None,
        }),
{
    let by_key = seq![SegmentView::Key(key)];
    let by_index = seq![SegmentView::Index(index)];
    law_leading_dot_is_optional(by_key);
    law_path_reads_back(by_index);
    assert(by_key.skip(1) =~= Seq::empty());
    assert(by_index.skip(1) =~= Seq::empty());
    assert(written_path(by_key.skip(1)) =~= Seq::empty());
    assert(written_path(by_key) =~= seq!['.'] + key);
    assert(written_path(by_key).skip(1) =~= key);
    assert(written_path(by_index) =~= seq!['['] + decimal(index as nat) + seq![']']);
    assert(by_key.drop_last() =~= Seq::empty());
    assert(by_index.drop_last() =~= Seq::empty());
    assert(descendant(value, by_key.drop_last()) == Some(value));
    assert(descendant(value, by_index.drop_last()) == Some(value));
}

/// What a path picks out of a text is what it picks out of the JSON that the text is; nothing is
/// picked out of a text that is no JSON.
pub proof fn law_texts_are_read_as_json(text: Seq<char>, path: Seq<char>)
    ensures
        json_document(text) matches Some(value) ==> extracted(text, path) == picked(value, path),
        json_document(text) is None ==> extracted(text, path) is None,
{
}

}
