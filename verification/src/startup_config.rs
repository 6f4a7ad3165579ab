//! Single-key reads of `config.toml`, for decisions that are made before the settings load.
//!
//! The scan understands `key = "value"` inside a `[table]` and nothing else, so that a malformed
//! section elsewhere in the file cannot keep the language from being applied.

use crate::text::{self, before_char, lines_of, opt_view, trimmed, trimmed_end, trimmed_start, without_prefix};
use vstd::prelude::*;

verus! {

/// What stands behind `key =` on a trimmed line, if the line assigns that key.
pub open spec fn assigned(line: Seq<char>, key: Seq<char>) -> Option<Seq<char>> {
    match without_prefix(line, key) {
        Some(rest) => without_prefix(trimmed_start(rest), "="@),
        None => None,
    }
}

/// The value between the quotes of an assignment, if there is a quote on either side of it and it is
/// not empty.
pub open spec fn quoted(value: Seq<char>) -> Option<Seq<char>> {
    match without_prefix(trimmed_start(value), "\""@) {
        Some(inner) => {
            let held = before_char(inner, '"');
            if 0 < held.len() < inner.len() {
                Some(held)
            } else {
                None
            }
        },
        None => None,
    }
}

/// Whether a line opens a table.
pub open spec fn opens_table(line: Seq<char>) -> bool {
    trimmed(line).len() > 0 && trimmed(line)[0] == '['
}

/// What the scan finds in `lines` when it enters them inside (`in_table`) or outside the table
/// that `header` opens. The first assignment of `key` there decides.
pub open spec fn scanned(
    lines: Seq<Seq<char>>,
    header: Seq<char>,
    key: Seq<char>,
    in_table: bool,
) -> Option<Seq<char>>
    decreases lines.len(),
{
    if lines.len() == 0 {
        None
    } else {
        let line = trimmed(lines[0]);
        let rest = lines.drop_first();
        if opens_table(lines[0]) {
            scanned(rest, header, key, line == header)
        } else if !in_table {
            scanned(rest, header, key, false)
        } else {
            match assigned(line, key) {
                Some(value) => quoted(value),
                None => scanned(rest, header, key, true),
            }
        }
    }
}

/// The line that opens `table`.
pub open spec fn header_of(table: Seq<char>) -> Seq<char> {
    "["@ + table + "]"@
}

/// The value of `key` in `[table]`, if a text has one.
pub open spec fn found_in(content: Seq<char>, table: Seq<char>, key: Seq<char>) -> Option<Seq<char>> {
    scanned(lines_of(content), header_of(table), key, false)
}

/// Finds `key = "value"` inside `[table]`, without parsing the rest of the text.
pub fn find_table_string(content: &str, table: &str, key: &str) -> (r: Option<String>)
    ensures
        opt_view(r) == found_in(content@, table@, key@),
{
    let wanted = text::join3("[", table, "]");
    let all = text::lines(content);
    let ghost spec_lines = lines_of(content@);
    let mut in_table = false;
    let mut i: usize = 0;
    assert(spec_lines.skip(0) =~= spec_lines);
    while i < all.len()
        invariant
            i <= all@.len() == spec_lines.len(),
            spec_lines == lines_of(content@),
            text::views(all@) == spec_lines,
            wanted@ == header_of(table@),
            scanned(spec_lines, header_of(table@), key@, false) == scanned(
                spec_lines.skip(i as int),
                header_of(table@),
                key@,
                in_table,
            ),
        decreases all@.len() - i,
    {
        let ghost rest = spec_lines.skip(i as int);
        proof {
            assert(rest[0] == text::views(all@)[i as int]);
            assert(rest.drop_first() =~= spec_lines.skip(i + 1));
            reveal_strlit("[");
        }
        let line = text::trim(&all[i]);
        i += 1;
        let opens = text::starts_with(line, "[");
        assert(opens == opens_table(rest[0])) by {
            if line@.len() > 0 {
                assert(line@.subrange(0, 1) =~= seq![line@[0]]);
                assert("["@ =~= seq!['[']);
                assert(line@.subrange(0, 1)[0] == line@[0]);
            }
        }
        if opens {
            in_table = text::same(line, &wanted);
            continue;
        }
        if !in_table {
            continue;
        }
        let behind = match text::strip_prefix(line, key) {
            Some(behind) => behind,
            None => continue,
        };
        let value = match text::strip_prefix(text::trim_start(behind), "=") {
            Some(value) => value,
            None => continue,
        };
        let inner = match text::strip_prefix(text::trim_start(value), "\"") {
            Some(inner) => inner,
            None => return None,
        };
        let found = text::until_char(inner, '"');
        proof {
            text::lemma_before_char(inner@, '"');
        }
        if found.is_empty() || found.unicode_len() == inner.unicode_len() {
            return None;
        }
        return Some(found.to_owned());
    }
    None
}

proof fn lemma_scan_skips(before: Seq<Seq<char>>, after: Seq<Seq<char>>, header: Seq<char>, key: Seq<char>)
    requires
        forall|i: int| 0 <= i < before.len() ==> trimmed(#[trigger] before[i]) != header,
    ensures
        scanned(before + after, header, key, false) == scanned(after, header, key, false),
    decreases before.len(),
{
    if before.len() == 0 {
        assert(before + after =~= after);
    } else {
        assert((before + after).drop_first() =~= before.drop_first() + after);
        assert((before + after)[0] == before[0]);
        lemma_scan_skips(before.drop_first(), after, header, key);
    }
}

/// Whatever stands in front of the wanted table has no influence on what is found: keys outside any
/// table and keys of other tables are ignored, whether or not they can be understood.
pub proof fn law_other_tables_are_ignored(
    before: Seq<char>,
    after: Seq<char>,
    table: Seq<char>,
    key: Seq<char>,
)
    requires
        before.len() > 0 ==> before.last() == '\n',
        forall|i: int|
            0 <= i < lines_of(before).len() ==> trimmed(#[trigger] lines_of(before)[i]) != header_of(
                table,
            ),
    ensures
        found_in(before + after, table, key) == found_in(after, table, key),
{
    text::lemma_lines_concat(before, after);
    lemma_scan_skips(lines_of(before), lines_of(after), header_of(table), key);
}

proof fn lemma_trim_keeps(s: Seq<char>)
    requires
        s.len() > 0,
        !text::is_space(s[0]),
        !text::is_space(s.last()),
    ensures
        trimmed(s) == s,
        trimmed_start(s) == s,
        trimmed_end(s) == s,
{
}

proof fn lemma_prefix_of_concat(a: Seq<char>, b: Seq<char>)
    ensures
        without_prefix(a + b, a) == Some(b),
{
    assert((a + b).subrange(0, a.len() as int) =~= a);
    assert((a + b).skip(a.len() as int) =~= b);
}

/// A value written as `key = "value"` under its header is read back, whatever follows it. The key
/// starts with neither whitespace nor a bracket; the value is not empty and holds no quote.
pub proof fn law_written_value_is_read_back(
    table: Seq<char>,
    key: Seq<char>,
    value: Seq<char>,
    after: Seq<Seq<char>>,
)
    requires
        key.len() > 0,
        key[0] != '[',
        !text::is_space(key[0]),
        value.len() > 0,
        forall|i: int| 0 <= i < value.len() ==> value[i] != '"',
    ensures
        scanned(
            seq![header_of(table), key + " = \""@ + value + "\""@] + after,
            header_of(table),
            key,
            false,
        ) == Some(value),
{
    reveal_strlit("[");
    reveal_strlit("]");
    reveal_strlit(" = \"");
    reveal_strlit("\"");
    reveal_strlit("=");
    let header = header_of(table);
    lemma_trim_keeps(header);
    let line = key + " = \""@ + value + "\""@;
    lemma_trim_keeps(line);
    let behind = " = \""@ + value + "\""@;
    assert(line =~= key + behind);
    lemma_prefix_of_concat(key, behind);
    let eq_rest = behind.drop_first();
    assert(trimmed_start(behind) == eq_rest) by {
        assert(trimmed_start(eq_rest) == eq_rest);
    }
    let val = " \""@ + value + "\""@;
    reveal_strlit(" \"");
    assert(eq_rest =~= "="@ + val);
    lemma_prefix_of_concat("="@, val);
    let open = val.drop_first();
    assert(trimmed_start(val) == open) by {
        assert(trimmed_start(open) == open);
    }
    let inner = value + "\""@;
    assert(open =~= "\""@ + inner);
    lemma_prefix_of_concat("\""@, inner);
    text::lemma_before_char_is(inner, '"', value.len() as int);
    assert(inner.take(value.len() as int) =~= value);
    let lines = seq![header, line] + after;
    reveal_with_fuel(scanned, 3);
    assert(lines.drop_first()[0] == line);
    assert(lines[0] == header);
    assert(trimmed(header)[0] == '[');
    assert(line[0] == key[0]);
}

/// The text is read line by line: a line that starts with a bracket opens the wanted table or leaves
/// it; outside the table a line says nothing; inside it a line that does not assign the key says
/// nothing either.
pub proof fn law_text_is_read_line_by_line(
    line: Seq<char>,
    rest: Seq<Seq<char>>,
    header: Seq<char>,
    key: Seq<char>,
    in_table: bool,
)
    ensures
        ({
            let all = seq![line] + rest;
            let t = trimmed(line);
            let opens = t.len() > 0 && t[0] == '[';
            &&& opens && t == header ==> scanned(all, header, key, in_table) == scanned(
                rest,
                header,
                key,
                true,
            )
            &&& opens && t != header ==> scanned(all, header, key, in_table) == scanned(
                rest,
                header,
                key,
                false,
            )
            &&& !opens && !in_table ==> scanned(all, header, key, in_table) == scanned(
                rest,
                header,
                key,
                false,
            )
            &&& !opens && in_table && assigned(t, key) is None ==> scanned(
                all,
                header,
                key,
                in_table,
            ) == scanned(rest, header, key, true)
            &&& !opens && in_table && assigned(t, key) is Some ==> scanned(
                all,
                header,
                key,
                in_table,
            ) == quoted(assigned(t, key)->0)
        }),
        scanned(Seq::empty(), header, key, in_table) is None,
{
    assert((seq![line] + rest).drop_first() =~= rest);
}

/// Whether a text is whitespace alone.
pub open spec fn is_blank(s: Seq<char>) -> bool {
    forall|i: int| 0 <= i < s.len() ==> text::is_space(#[trigger] s[i])
}

proof fn lemma_blank_in_front(blank: Seq<char>, s: Seq<char>)
    requires
        is_blank(blank),
        s.len() > 0,
        !text::is_space(s[0]),
    ensures
        trimmed_start(blank + s) == s,
    decreases blank.len(),
{
    if blank.len() > 0 {
        let all = blank + s;
        assert(all[0] == blank[0]);
        assert(text::is_space(blank[0]));
        assert(all.drop_first() =~= blank.drop_first() + s);
        assert forall|i: int| 0 <= i < blank.drop_first().len() implies text::is_space(
            #[trigger] blank.drop_first()[i],
        ) by {
            assert(blank.drop_first()[i] == blank[i + 1]);
        }
        lemma_blank_in_front(blank.drop_first(), s);
    } else {
        assert(blank + s =~= s);
    }
}

/// A key is assigned by an equals sign behind it, with whitespace around the sign or without, and what
/// is assigned stands behind the sign. A line on which the key goes on, or on which another key stands,
/// does not assign it.
pub proof fn law_key_is_assigned_by_an_equals_sign(
    key: Seq<char>,
    blank: Seq<char>,
    rest: Seq<char>,
    c: char,
)
    requires
        is_blank(blank),
        !text::is_space(c),
        c != '=',
    ensures
        assigned(key + blank + seq!['='] + rest, key) == Some(rest),
        assigned(key + blank + seq![c] + rest, key) is None,
        forall|line: Seq<char>|
            (forall|tail: Seq<char>| line != #[trigger] (key + tail)) ==> #[trigger] assigned(line, key)
                is None,
{
    reveal_strlit("=");
    assert("="@ =~= seq!['=']);
    let set = seq!['='] + rest;
    let other = seq![c] + rest;
    assert(key + blank + seq!['='] + rest =~= key + (blank + set));
    assert(key + blank + seq![c] + rest =~= key + (blank + other));
    lemma_prefix_of_concat(key, blank + set);
    lemma_prefix_of_concat(key, blank + other);
    assert(!text::is_space('=')) by {
        assert('=' as u32 == 0x3d);
    }
    lemma_blank_in_front(blank, set);
    lemma_blank_in_front(blank, other);
    lemma_prefix_of_concat("="@, rest);
    assert(set == "="@ + rest);
    assert(without_prefix(other, "="@) is None) by {
        if text::matches_at(other, "="@, 0) {
            assert(other.subrange(0, 1)[0] == other[0]);
        }
    }
    assert forall|line: Seq<char>|
        (forall|tail: Seq<char>| line != #[trigger] (key + tail)) implies #[trigger] assigned(
        line,
        key,
    ) is None by {
        if without_prefix(line, key) is Some {
            let tail = line.skip(key.len() as int);
            assert(line =~= line.subrange(0, key.len() as int) + tail);
            assert(line == key + tail);
        }
    }
}

/// A value is what stands between its quotes, whatever stands behind them; without an opening quote,
/// without a closing one, or with nothing between them, there is none.
pub proof fn law_value_stands_between_quotes(
    blank: Seq<char>,
    value: Seq<char>,
    rest: Seq<char>,
    c: char,
)
    requires
        is_blank(blank),
        !value.contains('"'),
        !text::is_space(c),
        c != '"',
    ensures
        value.len() > 0 ==> quoted(blank + seq!['"'] + value + seq!['"'] + rest) == Some(value),
        value.len() == 0 ==> quoted(blank + seq!['"'] + value + seq!['"'] + rest) is None,
        quoted(blank + seq!['"'] + value) is None,
        quoted(blank + seq![c] + rest) is None,
{
    reveal_strlit("\"");
    assert("\""@ =~= seq!['"']);
    let inner = value + seq!['"'] + rest;
    assert(!text::is_space('"')) by {
        assert('"' as u32 == 0x22);
    }
    assert(blank + seq!['"'] + value + seq!['"'] + rest =~= blank + (seq!['"'] + inner));
    assert(blank + seq!['"'] + value =~= blank + (seq!['"'] + value));
    assert(blank + seq![c] + rest =~= blank + (seq![c] + rest));
    lemma_blank_in_front(blank, seq!['"'] + inner);
    lemma_blank_in_front(blank, seq!['"'] + value);
    lemma_blank_in_front(blank, seq![c] + rest);
    lemma_prefix_of_concat("\""@, inner);
    lemma_prefix_of_concat("\""@, value);
    assert forall|i: int| 0 <= i < value.len() implies value[i] != '"' by {
        assert(value.contains(value[i]));
    }
    assert forall|i: int| 0 <= i < value.len() implies inner[i] != '"' by {
        assert(inner[i] == value[i]);
    }
    assert(inner[value.len() as int] == '"');
    text::lemma_before_char_is(inner, '"', value.len() as int);
    assert(inner.take(value.len() as int) =~= value);
    text::lemma_before_char_is(value, '"', value.len() as int);
    assert(value.take(value.len() as int) =~= value);
    let other = seq![c] + rest;
    assert(without_prefix(other, "\""@) is None) by {
        if text::matches_at(other, "\""@, 0) {
            assert(other.subrange(0, 1)[0] == other[0]);
        }
    }
}

/// A file that assigns a value on the line behind its table's header gives that value, whatever follows.
pub proof fn law_value_in_a_file_is_found(
    content: &str,
    table: &str,
    key: &str,
    value: Seq<char>,
    after: Seq<char>,
    r: Option<String>,
)
    requires
        call_ensures(find_table_string, (content, table, key), r),
        content@ == seq!['['] + table@ + seq![']', '\n'] + key@ + seq![' ', '=', ' ', '"'] + value + seq![
            '"',
            '\n',
        ] + after,
        !table@.contains('\n'),
        !key@.contains('\n'),
        !value.contains('\n'),
        !value.contains('"'),
        value.len() > 0,
        key@.len() > 0,
        key@[0] != '[',
        !text::is_space(key@[0]),
    ensures
        r matches Some(s) && s@ == value,
{
    reveal_strlit("[");
    reveal_strlit("]");
    reveal_strlit(" = \"");
    reveal_strlit("\"");
    let header = header_of(table@);
    let line = key@ + " = \""@ + value + "\""@;
    let nl = seq!['\n'];
    let tail = line + nl + after;
    assert(content@ =~= header + nl + tail);
    assert(!header.contains('\n')) by {
        if header.contains('\n') {
            let i = choose|i: int| 0 <= i < header.len() && header[i] == '\n';
            assert(0 < i < header.len() - 1);
            assert(table@[i - 1] == '\n');
            assert(table@.contains('\n'));
        }
    }
    assert(!line.contains('\n')) by {
        if line.contains('\n') {
            let i = choose|i: int| 0 <= i < line.len() && line[i] == '\n';
            let k = key@.len() as int;
            if i < k {
                assert(key@[i] == '\n');
            } else if i < k + 4 {
                assert(line[i] == " = \""@[i - k]);
            } else if i < k + 4 + value.len() {
                assert(value[i - k - 4] == '\n');
            }
        }
    }
    text::law_lines_stand_between_line_feeds(header, tail);
    text::law_lines_stand_between_line_feeds(line, after);
    assert(header.last() == ']');
    assert(line.last() == '"');
    assert(lines_of(content@) =~= seq![header, line] + lines_of(after));
    assert forall|i: int| 0 <= i < value.len() implies value[i] != '"' by {
        assert(value.contains(value[i]));
    }
    law_written_value_is_read_back(table@, key@, value, lines_of(after));
}

} // verus!
