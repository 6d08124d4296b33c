//! The environment a command leaves behind, as `env -0` reports it.

use crate::bytes::{decode_part, find_byte, position_in, text_of};
use crate::text::{decimal, decimal_text, law_decimal_reads_back};
use crate::vars::{distinct, lemma_absent, put, put_all, Entries, Vars};
use vstd::prelude::*;
use vstd::utf8::{encode_scalar, encode_utf8};

verus! {

broadcast use vstd::seq::group_seq_axioms;

/// The shell script that runs `cmd`, reports the environment it leaves behind and ends with its
/// exit status.
pub open spec fn reporting_script(cmd: Seq<char>) -> Seq<char> {
    cmd
        + "\n__demonator_status=$?\nenv -0 > \"$DEMONATOR_ENV_FILE\"\nexit \"$__demonator_status\""@
}

/// The shell script that runs `cmd`, reports the environment it leaves behind and ends with its
/// exit status.
pub fn shell_script_with_env_snapshot(cmd: &str) -> (script: String)
    ensures
        script@ == reporting_script(cmd@),
{
    let mut script = cmd.to_owned();
    script.append(
        "\n__demonator_status=$?\nenv -0 > \"$DEMONATOR_ENV_FILE\"\nexit \"$__demonator_status\"",
    );
    script
}

/// The name of the file that report `n` of process `pid` goes to.
pub open spec fn report_name(pid: nat, n: nat) -> Seq<char> {
    "demonator-env-"@ + decimal(pid) + "-"@ + decimal(n) + ".env"@
}

/// The name of the file that report `n` of process `pid` goes to.
pub fn env_snapshot_name(pid: u32, n: u64) -> (name: String)
    ensures
        name@ == report_name(pid as nat, n as nat),
{
    let mut name = "demonator-env-".to_owned();
    name.append(decimal_text(pid as u64).as_str());
    name.append("-");
    name.append(decimal_text(n).as_str());
    name.append(".env");
    name
}

/// The entry that one field of a report stands for: the name before the first equals sign and
/// the value behind it. A field without one stands for none.
pub open spec fn field_entry(field: Seq<u8>) -> Entries {
    let eq = find_byte(field, 0x3d, 0);
    if 0 <= eq < field.len() {
        seq![(text_of(field.take(eq)), text_of(field.skip(eq + 1)))]
    } else {
        Seq::empty()
    }
}

/// The entries that the fields from position `i` on stand for; a zero byte ends a field.
pub open spec fn entries_from(bytes: Seq<u8>, i: int) -> Entries
    decreases bytes.len() + 1 - i,
{
    if i < 0 || i >= bytes.len() {
        Seq::empty()
    } else {
        let end = find_byte(bytes, 0, i);
        if i <= end <= bytes.len() {
            field_entry(bytes.subrange(i, end)) + entries_from(bytes, end + 1)
        } else {
            Seq::empty()
        }
    }
}

/// The environment that a report describes; where a name occurs twice, the later value holds.
pub open spec fn reported_env(bytes: Seq<u8>) -> Entries {
    put_all(Seq::empty(), entries_from(bytes, 0))
}

/// The environment that a report describes.
pub fn parse_env_snapshot(bytes: &Vec<u8>) -> (env: Vars)
    ensures
        env@ == reported_env(bytes@),
{
    let mut env = Vars::new();
    let mut i: usize = 0;
    let ghost mut done: Entries = Seq::empty();
    assert(done + entries_from(bytes@, 0) =~= entries_from(bytes@, 0));
    while i < bytes.len()
        invariant
            i <= bytes@.len(),
            env@ == put_all(Seq::empty(), done),
            entries_from(bytes@, 0) == done + entries_from(bytes@, i as int),
        decreases bytes@.len() - i,
    {
        let end = position_in(bytes, 0, i, bytes.len());
        let ghost field = bytes@.subrange(i as int, end as int);
        let eq = position_in(bytes, 0x3d, i, end);
        let ghost rest = entries_from(bytes@, end + 1);
        if eq < end {
            let name = decode_part(bytes, i, eq);
            let value = decode_part(bytes, eq + 1, end);
            assert(field.take(eq - i) =~= bytes@.subrange(i as int, eq as int));
            assert(field.skip(eq - i + 1) =~= bytes@.subrange(eq + 1, end as int));
            let ghost entry = (name@, value@);
            assert(field_entry(field) =~= seq![entry]);
            env.insert(name, value);
            proof {
                assert(done.push(entry).drop_last() =~= done);
                assert(done + (seq![entry] + rest) =~= done.push(entry) + rest);
                done = done.push(entry);
            }
        } else {
            assert(field_entry(field) + rest =~= rest);
        }
        i = if end < bytes.len() {
            end + 1
        } else {
            end
        };
    }
    assert(done + entries_from(bytes@, i as int) =~= done);
    env
}

// ---------------------------------------------------------------------------
// Laws
// ---------------------------------------------------------------------------

/// An entry as `env -0` reports it.
pub open spec fn report_field(name: Seq<char>, value: Seq<char>) -> Seq<u8> {
    encode_utf8(name) + seq![0x3du8] + encode_utf8(value) + seq![0u8]
}

/// An environment as `env -0` reports it.
pub open spec fn report(entries: Entries) -> Seq<u8>
    decreases entries.len(),
{
    if entries.len() == 0 {
        Seq::empty()
    } else {
        report_field(entries[0].0, entries[0].1) + report(entries.skip(1))
    }
}

/// A name and a value that an environment can hold: no zero character, and in the name no equals
/// sign.
pub open spec fn reportable(name: Seq<char>, value: Seq<char>) -> bool {
    &&& forall|i: int| 0 <= i < name.len() ==> #[trigger] name[i] != '=' && name[i] != '\0'
    &&& forall|i: int| 0 <= i < value.len() ==> #[trigger] value[i] != '\0'
}

/// In UTF-8 an ASCII byte stands for its own character only.
proof fn lemma_scalar_bytes(scalar: u32, i: int)
    requires
        vstd::utf8::is_scalar(scalar),
        0 <= i < encode_scalar(scalar).len(),
    ensures
        encode_scalar(scalar)[i] < 0x80 ==> encode_scalar(scalar)[i] == scalar,
{
    assert(scalar <= 0x7F ==> (scalar & 0x7F) as u8 == scalar) by (bit_vector);
    assert(0xC0u8 | ((scalar >> 6) & 0x1F) as u8 >= 0x80) by (bit_vector);
    assert(0xE0u8 | ((scalar >> 12) & 0x0F) as u8 >= 0x80) by (bit_vector);
    assert(0xF0u8 | ((scalar >> 18) & 0x7) as u8 >= 0x80) by (bit_vector);
    assert(0x80u8 | (scalar & 0x3F) as u8 >= 0x80) by (bit_vector);
    assert(0x80u8 | ((scalar >> 6) & 0x3F) as u8 >= 0x80) by (bit_vector);
    assert(0x80u8 | ((scalar >> 12) & 0x3F) as u8 >= 0x80) by (bit_vector);
}

/// A text without an ASCII character has no such byte in UTF-8.
proof fn lemma_encoding_lacks(text: Seq<char>, ch: char)
    requires
        (ch as u32) < 0x80,
        forall|i: int| 0 <= i < text.len() ==> #[trigger] text[i] != ch,
    ensures
        forall|i: int| 0 <= i < encode_utf8(text).len() ==> #[trigger] encode_utf8(text)[i]
            != ch as u8,
    decreases text.len(),
{
    if text.len() > 0 {
        let head = encode_scalar(text[0] as u32);
        let rest = text.drop_first();
        let tail = encode_utf8(rest);
        assert forall|i: int| 0 <= i < rest.len() implies #[trigger] rest[i] != ch by {
            assert(rest[i] == text[i + 1]);
        }
        lemma_encoding_lacks(rest, ch);
        assert forall|i: int| 0 <= i < encode_utf8(text).len() implies #[trigger] encode_utf8(
            text,
        )[i] != ch as u8 by {
            if i < head.len() {
                vstd::utf8::char_is_scalar(text[0]);
                lemma_scalar_bytes(text[0] as u32, i);
                assert(text[0] != ch);
                assert(encode_utf8(text)[i] == head[i]);
                assert(ch as u8 == ch as u32);
                vstd::utf8::char_u32_cast(text[0], text[0] as u32);
                vstd::utf8::char_u32_cast(ch, ch as u32);
            } else {
                assert(encode_utf8(text)[i] == tail[i - head.len()]);
            }
        }
    }
}

proof fn lemma_find_byte(bytes: Seq<u8>, wanted: u8, i: int, end: int)
    requires
        0 <= i <= end < bytes.len(),
        forall|j: int| i <= j < end ==> #[trigger] bytes[j] != wanted,
        bytes[end] == wanted,
    ensures
        find_byte(bytes, wanted, i) == end,
    decreases end - i,
{
    if i < end {
        lemma_find_byte(bytes, wanted, i + 1, end);
    }
}

/// A field stands for the entry it was made from.
proof fn lemma_field_reads_back(name: Seq<char>, value: Seq<char>)
    requires
        reportable(name, value),
    ensures
        field_entry(encode_utf8(name) + seq![0x3du8] + encode_utf8(value)) == seq![(name, value)],
{
    let n = encode_utf8(name);
    let v = encode_utf8(value);
    let field = n + seq![0x3du8] + v;
    lemma_encoding_lacks(name, '=');
    assert forall|j: int| 0 <= j < n.len() implies #[trigger] field[j] != 0x3d by {
        assert(field[j] == n[j]);
    }
    lemma_find_byte(field, 0x3d, 0, n.len() as int);
    assert(field.take(n.len() as int) =~= n);
    assert(field.skip(n.len() as int + 1) =~= v);
    vstd::utf8::encode_utf8_valid_utf8(name);
    vstd::utf8::encode_utf8_valid_utf8(value);
    vstd::utf8::encode_utf8_decode_utf8(name);
    vstd::utf8::encode_utf8_decode_utf8(value);
    assert(field_entry(field) =~= seq![(name, value)]);
}

proof fn lemma_report_reads_back(before: Seq<u8>, entries: Entries)
    requires
        forall|k: int|
            0 <= k < entries.len() ==> reportable((#[trigger] entries[k]).0, entries[k].1),
    ensures
        entries_from(before + report(entries), before.len() as int) == entries,
    decreases entries.len(),
{
    let bytes = before + report(entries);
    let i = before.len() as int;
    if entries.len() == 0 {
        assert(entries_from(bytes, i) =~= entries);
    } else {
        let (name, value) = entries[0];
        let rest = entries.skip(1);
        let field = encode_utf8(name) + seq![0x3du8] + encode_utf8(value);
        let whole = report_field(name, value);
        let next = before + whole;
        assert(reportable(entries[0].0, entries[0].1));
        assert forall|k: int| 0 <= k < rest.len() implies reportable(
            (#[trigger] rest[k]).0,
            rest[k].1,
        ) by {
            assert(rest[k] == entries[k + 1]);
        }
        assert(bytes =~= next + report(rest));
        lemma_report_reads_back(next, rest);
        lemma_encoding_lacks(name, '\0');
        lemma_encoding_lacks(value, '\0');
        let end = i + field.len();
        assert forall|j: int| i <= j < end implies #[trigger] bytes[j] != 0 by {
            let k = j - i;
            assert(bytes[j] == field[k]);
            if k < encode_utf8(name).len() {
                assert(field[k] == encode_utf8(name)[k]);
            } else if k > encode_utf8(name).len() {
                assert(field[k] == encode_utf8(value)[k - encode_utf8(name).len() - 1]);
            }
        }
        assert(bytes[end] == 0);
        lemma_find_byte(bytes, 0, i, end);
        assert(bytes.subrange(i, end) =~= field);
        lemma_field_reads_back(name, value);
        assert(seq![(name, value)] + rest =~= entries);
    }
}

/// Putting distinct entries into nothing gives those entries.
proof fn lemma_put_all_distinct(entries: Entries)
    requires
        distinct(entries),
    ensures
        put_all(Seq::empty(), entries) == entries,
    decreases entries.len(),
{
    if entries.len() > 0 {
        let head = entries.drop_last();
        assert forall|a: int, b: int| 0 <= a < b < head.len() implies (#[trigger] head[a]).0 != (
        #[trigger] head[b]).0 by {
            assert(entries[a].0 != entries[b].0);
        }
        lemma_put_all_distinct(head);
        assert forall|k: int| 0 <= k < head.len() implies (#[trigger] head[k]).0
            != entries.last().0 by {
            assert(entries[k].0 != entries[entries.len() - 1].0);
        }
        lemma_absent(head, entries.last().0);
        assert(put(head, entries.last().0, entries.last().1) =~= entries);
    } else {
        assert(entries =~= Seq::empty());
    }
}

/// An environment reads back from its report as it was.
pub proof fn law_environment_reads_back(entries: Entries)
    requires
        distinct(entries),
        forall|k: int|
            0 <= k < entries.len() ==> reportable((#[trigger] entries[k]).0, entries[k].1),
    ensures
        reported_env(report(entries)) == entries,
{
    lemma_report_reads_back(Seq::empty(), entries);
    assert(Seq::<u8>::empty() + report(entries) =~= report(entries));
    lemma_put_all_distinct(entries);
}

/// No two reports of a process go to the same file.
pub proof fn law_reports_are_kept_apart(pid: nat, n: nat, m: nat)
    requires
        n != m,
    ensures
        report_name(pid, n) != report_name(pid, m),
{
    law_decimal_reads_back(n);
    law_decimal_reads_back(m);
    let head = "demonator-env-"@ + decimal(pid) + "-"@;
    if report_name(pid, n) == report_name(pid, m) {
        let from = head.len() as int;
        assert(decimal(n) =~= report_name(pid, n).subrange(from, from + decimal(n).len()));
        assert(decimal(m) =~= report_name(pid, m).subrange(from, from + decimal(m).len()));
        assert(report_name(pid, n).len() == from + decimal(n).len() + ".env"@.len());
        assert(report_name(pid, m).len() == from + decimal(m).len() + ".env"@.len());
    }
}

/// A field of a report without an equals sign counts for nothing, and neither does an empty one.
pub proof fn law_other_fields_count_for_nothing(field: Seq<u8>, rest: Entries)
    requires
        forall|i: int| 0 <= i < field.len() ==> #[trigger] field[i] != 0x3d && field[i] != 0,
        forall|k: int| 0 <= k < rest.len() ==> reportable((#[trigger] rest[k]).0, rest[k].1),
        distinct(rest),
    ensures
        reported_env(field + seq![0u8] + report(rest)) == rest,
{
    let bytes = field + seq![0u8] + report(rest);
    let head = field + seq![0u8];
    let n = field.len() as int;
    assert(bytes[n] == 0);
    assert forall|j: int| 0 <= j < n implies #[trigger] bytes[j] != 0 by {
        assert(bytes[j] == field[j]);
    }
    lemma_find_byte(bytes, 0, 0, n);
    assert(bytes.subrange(0, n) =~= field);
    lemma_byte_absent(field, 0x3d, 0);
    assert(field_entry(field) =~= Seq::empty());
    lemma_report_reads_back(head, rest);
    assert(entries_from(bytes, 0) =~= entries_from(bytes, n + 1));
    lemma_put_all_distinct(rest);
}

proof fn lemma_byte_absent(bytes: Seq<u8>, wanted: u8, i: int)
    requires
        0 <= i <= bytes.len(),
        forall|j: int| 0 <= j < bytes.len() ==> #[trigger] bytes[j] != wanted,
    ensures
        find_byte(bytes, wanted, i) == bytes.len(),
    decreases bytes.len() - i,
{
    if i < bytes.len() {
        lemma_byte_absent(bytes, wanted, i + 1);
    }
}

}
