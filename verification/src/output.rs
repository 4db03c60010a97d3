//! Turning search results into what the command prints: field filtering,
//! text tables, CSV, JSON and raw lines.

use vstd::prelude::*;
use vstd::string::StringExecFns;
use crate::text::{
    utf8_bytes, fit_prefix, prefix_within, byte_len, concat, to_uppercase, unicode_uppercase, to_chars,
    from_chars, chars_eq, split_chars, split_spec, char_vecs_view, trim_chars, trim_spec,
};
use crate::time::{epoch_ms_text, format_epoch_ms};
use crate::json::{
    Json, member, member_of, members_view, unwrap_map, unwrap_map_spec, get_spec, cell_text, value_to_string, pretty_text,
    json_pretty_text,
};

verus! {

proof fn lemma_member_remove(e: Seq<(String, Json)>, i: int, key: Seq<char>)
    requires
        0 <= i < e.len(),
        e[i].0@ != key,
    ensures
        member(e.remove(i), key) == member(e, key),
    decreases e.len(),
{
    if i > 0 {
        assert(e.remove(i).drop_first() =~= e.drop_first().remove(i - 1));
        lemma_member_remove(e.drop_first(), i - 1, key);
    } else {
        assert(e.remove(0) =~= e.drop_first());
    }
}

fn find_member(entries: &Vec<(String, Json)>, key: &String) -> (r: Option<usize>)
    ensures
        match r {
            Some(i) => i < entries@.len() && entries@[i as int].0@ == key@ && member(entries@, key@) == Some(entries@[i as int].1),
            None => member(entries@, key@) is None,
        },
{
    let mut i: usize = 0;
    assert(entries@.skip(0) =~= entries@);
    while i < entries.len()
        invariant
            i <= entries@.len(),
            member(entries@, key@) == member(entries@.skip(i as int), key@),
        decreases entries@.len() - i,
    {
        assert(entries@.skip(i as int)[0] == entries@[i as int]);
        if entries[i].0 == *key {
            return Some(i);
        }
        assert(entries@.skip(i as int).drop_first() =~= entries@.skip(i + 1));
        i += 1;
    }
    None
}

/// The members an object built from `fields` holds: each field the source
/// object has, once, in the order of `fields`.
pub open spec fn picked_members(obj: Seq<(String, Json)>, fields: Seq<Seq<char>>) -> Seq<(Seq<char>, Json)>
    decreases fields.len(),
{
    if fields.len() == 0 {
        Seq::empty()
    } else {
        let before = picked_members(obj, fields.drop_last());
        let f = fields.last();
        if member(obj, f) is Some && !(exists|k: int| 0 <= k < before.len() && before[k].0 == f) {
            before.push((f, member(obj, f).unwrap()))
        } else {
            before
        }
    }
}

/// The members of a result after filtering to `fields` (none when the
/// result holds no object).
pub open spec fn filtered_members(v: Json, fields: Seq<Seq<char>>) -> Seq<(Seq<char>, Json)> {
    match unwrap_map_spec(v) {
        Some(obj) => picked_members(obj, fields),
        None => Seq::empty(),
    }
}

/// The members a result holds, taken out of it.
fn take_members(v: Json) -> (r: Option<Vec<(String, Json)>>)
    ensures
        match unwrap_map_spec(v) {
            Some(e) => r matches Some(x) && x@ == e,
            None => r is None,
        },
{
    match v {
        Json::Object(mut entries) => {
            let key = String::from_str("map");
            proof {
                reveal_strlit("map");
            }
            match find_member(&entries, &key) {
                Some(i) => {
                    if let Json::Object(_) = &entries[i].1 {
                        let (_k, inner) = entries.remove(i);
                        match inner {
                            Json::Object(x) => Some(x),
                            _ => None,
                        }
                    } else {
                        Some(entries)
                    }
                }
                None => Some(entries),
            }
        }
        _ => None,
    }
}

fn pick_fields(mut entries: Vec<(String, Json)>, fields: &Vec<String>) -> (r: Vec<(String, Json)>)
    ensures
        members_view(r@) == picked_members(entries@, fields@.map_values(|f: String| f@)),
{
    let ghost orig = entries@;
    let ghost fv = fields@.map_values(|f: String| f@);
    let mut out: Vec<(String, Json)> = Vec::new();
    let mut i: usize = 0;
    while i < fields.len()
        invariant
            i <= fields@.len(),
            fv == fields@.map_values(|f: String| f@),
            members_view(out@) == picked_members(orig, fv.take(i as int)),
            forall|key: Seq<char>| !(exists|k: int| 0 <= k < out@.len() && out@[k].0@ == key)
                ==> member(entries@, key) == member(orig, key),
        decreases fields@.len() - i,
    {
        let f = &fields[i];
        assert(fv.take(i + 1).drop_last() =~= fv.take(i as int));
        assert(fv.take(i + 1).last() == f@);
        let ghost before = members_view(out@);
        let mut already = false;
        let mut k: usize = 0;
        while k < out.len()
            invariant
                k <= out@.len(),
                already == exists|j: int| 0 <= j < k && out@[j].0@ == f@,
            decreases out@.len() - k,
        {
            if out[k].0 == *f {
                already = true;
            }
            k += 1;
        }
        assert(already == exists|j: int| 0 <= j < before.len() && before[j].0 == f@) by {
            if already {
                let j = choose|j: int| 0 <= j < out@.len() && out@[j].0@ == f@;
                assert(before[j].0 == f@);
            }
            if exists|j: int| 0 <= j < before.len() && before[j].0 == f@ {
                let j = choose|j: int| 0 <= j < before.len() && before[j].0 == f@;
                assert(out@[j].0@ == f@);
            }
        }
        if !already {
            match find_member(&entries, f) {
                Some(idx) => {
                    let ghost prev_entries = entries@;
                    let ghost prev_out = out@;
                    assert(forall|key: Seq<char>| !(exists|k: int| 0 <= k < prev_out.len() && prev_out[k].0@ == key)
                        ==> member(prev_entries, key) == member(orig, key));
                    let (_key, value) = entries.remove(idx);
                    out.push((f.clone(), value));
                    proof {
                        assert(members_view(out@) =~= before.push((f@, member(orig, f@).unwrap())));
                        assert forall|key: Seq<char>| !(exists|k: int| 0 <= k < out@.len() && out@[k].0@ == key)
                            implies member(entries@, key) == member(orig, key) by {
                            assert(out@[out@.len() - 1].0@ == f@);
                            if key != f@ {
                                lemma_member_remove(prev_entries, idx as int, key);
                                assert(!(exists|k: int| 0 <= k < prev_out.len() && prev_out[k].0@ == key)) by {
                                    if exists|k: int| 0 <= k < prev_out.len() && prev_out[k].0@ == key {
                                        let k = choose|k: int| 0 <= k < prev_out.len() && prev_out[k].0@ == key;
                                        assert(out@[k].0@ == key);
                                    }
                                }
                                assert(member(prev_entries, key) == member(orig, key));
                            }
                        }
                    }
                }
                None => {
                    proof {
                        assert(member(orig, f@) is None);
                    }
                }
            }
        }
        i += 1;
    }
    assert(fv.take(fields@.len() as int) =~= fv);
    out
}

/// Keeps of each result only the members named in `fields`, as new flat
/// objects (a result's `map` wrapper is looked through).
pub fn filter_fields(results: Vec<Json>, fields: &Vec<String>) -> (r: Vec<Json>)
    ensures
        r@.len() == results@.len(),
        forall|i: int| 0 <= i < r@.len() ==> match #[trigger] r@[i] {
            Json::Object(e) => members_view(e@) == filtered_members(results@[i], fields@.map_values(|f: String| f@)),
            _ => false,
        },
{
    let ghost orig = results@;
    let mut out: Vec<Json> = Vec::new();
    for v in it: results.into_iter()
        invariant
            it.seq() == orig,
            out@.len() == it.index(),
            forall|i: int| 0 <= i < out@.len() ==> match #[trigger] out@[i] {
                Json::Object(e) => members_view(e@) == filtered_members(orig[i], fields@.map_values(|f: String| f@)),
                _ => false,
            },
    {
        let picked = match take_members(v) {
            Some(entries) => pick_fields(entries, fields),
            None => Vec::new(),
        };
        proof {
            if unwrap_map_spec(v) is None {
                assert(members_view(picked@) =~= Seq::<(Seq<char>, Json)>::empty());
            }
        }
        out.push(Json::Object(picked));
    }
    out
}


/// The cell text of member `key` of a result's object; empty when the
/// result holds no object or the object lacks the member.
pub open spec fn field_text(obj: Option<Seq<(String, Json)>>, key: Seq<char>) -> Seq<char> {
    match obj {
        Some(e) => match member(e, key) {
            Some(v) => cell_text(v),
            None => Seq::empty(),
        },
        None => Seq::empty(),
    }
}

/// The cell text of a member of a result's object.
pub fn field_text_of(obj: Option<&Vec<(String, Json)>>, key: &str) -> (r: String)
    ensures
        r@ == field_text(
            match obj {
                Some(e) => Some(e@),
                None => None,
            },
            key@,
        ),
{
    match obj {
        Some(e) => match member_of(e, key) {
            Some(v) => value_to_string(v),
            None => String::new(),
        },
        None => String::new(),
    }
}

/// The views of a vector of strings.
pub open spec fn strings_view(v: Seq<String>) -> Seq<Seq<char>> {
    v.map_values(|s: String| s@)
}

/// The line `--raw` prints for a result: its `_raw` member.
pub open spec fn raw_line(v: Json) -> Seq<char> {
    field_text(unwrap_map_spec(v), "_raw"@)
}

/// The lines `--raw` prints, one per result.
pub fn raw_lines(results: &Vec<Json>) -> (r: Vec<String>)
    ensures
        r@.len() == results@.len(),
        forall|i: int| 0 <= i < r@.len() ==> #[trigger] r@[i]@ == raw_line(results@[i]),
{
    let mut r: Vec<String> = Vec::new();
    let mut i: usize = 0;
    proof {
        reveal_strlit("_raw");
    }
    while i < results.len()
        invariant
            i <= results@.len(),
            r@.len() == i,
            forall|k: int| 0 <= k < i ==> #[trigger] r@[k]@ == raw_line(results@[k]),
        decreases results@.len() - i,
    {
        let obj = unwrap_map(&results[i]);
        r.push(field_text_of(obj, "_raw"));
        i += 1;
    }
    r
}

/// What `-o json` shows of a result that was not filtered: its `map`
/// member when it has one, else the result itself.
pub open spec fn json_shown(v: Json) -> Json {
    match get_spec(v, "map"@) {
        Some(m) => m,
        None => v,
    }
}

fn take_map_member(v: Json) -> (r: Json)
    ensures
        r == json_shown(v),
{
    proof {
        reveal_strlit("map");
    }
    match v {
        Json::Object(mut entries) => {
            let key = String::from_str("map");
            match find_member(&entries, &key) {
                Some(i) => {
                    let (_k, inner) = entries.remove(i);
                    inner
                }
                None => Json::Object(entries),
            }
        }
        other => other,
    }
}

/// What `-o json` prints: the pretty JSON array of the results (of their
/// `map` members, unless they were filtered to fields), or `[]` should
/// serialization fail.
pub open spec fn json_output_text(results: Seq<Json>, fields_filtered: bool) -> Seq<char> {
    let shown = if fields_filtered {
        results
    } else {
        results.map_values(|v: Json| json_shown(v))
    };
    match json_pretty_text(shown) {
        Some(t) => t,
        None => "[]"@,
    }
}

/// The text `-o json` prints.
pub fn json_output(results: Vec<Json>, fields_filtered: bool) -> (r: String)
    ensures
        r@ == json_output_text(results@, fields_filtered),
{
    let ghost orig = results@;
    let shown: Vec<Json> = if fields_filtered {
        results
    } else {
        let mut out: Vec<Json> = Vec::new();
        for v in it: results.into_iter()
            invariant
                it.seq() == orig,
                out@.len() == it.index(),
                forall|i: int| 0 <= i < out@.len() ==> #[trigger] out@[i] == json_shown(orig[i]),
        {
            out.push(take_map_member(v));
        }
        assert(out@ =~= orig.map_values(|v: Json| json_shown(v)));
        out
    };
    proof {
        reveal_strlit("[]");
    }
    match pretty_text(&shown) {
        Some(t) => t,
        None => String::from_str("[]"),
    }
}


/// The views of a vector of string vectors.
pub open spec fn rows_view(v: Seq<Vec<String>>) -> Seq<Seq<Seq<char>>> {
    v.map_values(|r: Vec<String>| strings_view(r@))
}

/// A message longer than 120 bytes of UTF-8, cut to its longest prefix of
/// at most 120 bytes that ends between characters, and `...`.
pub open spec fn truncated_message(raw: Seq<char>) -> Seq<char> {
    if utf8_bytes(raw).len() > 120 {
        fit_prefix(raw, 120) + "..."@
    } else {
        raw
    }
}

/// The source category of a message: `_sourcecategory`, else
/// `_sourceCategory`.
pub open spec fn source_text(obj: Option<Seq<(String, Json)>>) -> Seq<char> {
    match obj {
        Some(e) => match member(e, "_sourcecategory"@) {
            Some(v) => cell_text(v),
            None => field_text(obj, "_sourceCategory"@),
        },
        None => Seq::empty(),
    }
}

/// The row a text table shows for a message: its time, source category
/// and (cut) raw text.
pub open spec fn message_row(v: Json) -> Seq<Seq<char>> {
    let obj = unwrap_map_spec(v);
    seq![
        epoch_ms_text(field_text(obj, "_messagetime"@)),
        source_text(obj),
        truncated_message(field_text(obj, "_raw"@)),
    ]
}

fn message_cells(v: &Json) -> (r: Vec<String>)
    ensures
        strings_view(r@) == message_row(*v),
{
    proof {
        reveal_strlit("_messagetime");
        reveal_strlit("_sourcecategory");
        reveal_strlit("_sourceCategory");
        reveal_strlit("_raw");
        reveal_strlit("...");
    }
    let obj = unwrap_map(v);
    let time_raw = field_text_of(obj, "_messagetime");
    let time = format_epoch_ms(time_raw.as_str());
    let source = match obj {
        Some(e) => match member_of(e, "_sourcecategory") {
            Some(x) => value_to_string(x),
            None => field_text_of(obj, "_sourceCategory"),
        },
        None => String::new(),
    };
    let raw = field_text_of(obj, "_raw");
    let shown = if byte_len(raw.as_str()) > 120 {
        let head = prefix_within(raw.as_str(), 120);
        concat(head.as_str(), "...")
    } else {
        raw
    };
    let mut r: Vec<String> = Vec::new();
    r.push(time);
    r.push(source);
    r.push(shown);
    assert(strings_view(r@) =~= message_row(*v));
    r
}

/// The header of a text table of messages.
pub open spec fn message_header() -> Seq<Seq<char>> {
    seq!["TIME"@, "SOURCE"@, "MESSAGE"@]
}

/// The keys of the object a result holds, in order (none without one).
pub open spec fn keys_of(v: Json) -> Seq<Seq<char>> {
    match unwrap_map_spec(v) {
        Some(e) => e.map_values(|m: (String, Json)| m.0@),
        None => Seq::empty(),
    }
}

/// The row of a table or CSV for a result: the cell text of each column's
/// member, empty where it lacks one.
pub open spec fn row_for(v: Json, columns: Seq<Seq<char>>) -> Seq<Seq<char>> {
    columns.map_values(|c: Seq<char>| field_text(unwrap_map_spec(v), c))
}

fn row_cells(v: &Json, columns: &Vec<String>) -> (r: Vec<String>)
    ensures
        strings_view(r@) == row_for(*v, strings_view(columns@)),
{
    let obj = unwrap_map(v);
    let mut r: Vec<String> = Vec::new();
    let mut i: usize = 0;
    while i < columns.len()
        invariant
            i <= columns@.len(),
            r@.len() == i,
            obj matches Some(e) ==> unwrap_map_spec(*v) == Some(e@),
            obj is None ==> unwrap_map_spec(*v) is None,
            forall|k: int| 0 <= k < i ==> #[trigger] r@[k]@ == field_text(unwrap_map_spec(*v), columns@[k]@),
        decreases columns@.len() - i,
    {
        r.push(field_text_of(obj, columns[i].as_str()));
        i += 1;
    }
    assert(strings_view(r@) =~= row_for(*v, strings_view(columns@)));
    r
}

/// The rows of an aggregate table: one per result that holds an object, in
/// order.
pub open spec fn aggregate_rows(results: Seq<Json>, columns: Seq<Seq<char>>) -> Seq<Seq<Seq<char>>>
    decreases results.len(),
{
    if results.len() == 0 {
        Seq::empty()
    } else {
        let before = aggregate_rows(results.drop_last(), columns);
        if unwrap_map_spec(results.last()) is Some {
            before.push(row_for(results.last(), columns))
        } else {
            before
        }
    }
}

/// The cells of a text table: its header (when it has one) and rows. For
/// aggregate results the columns are the keys of the first result's
/// object, upper-cased in the header; for messages they are time, source
/// and message.
pub open spec fn text_table_spec(results: Seq<Json>, is_aggregate: bool) -> (Option<Seq<Seq<char>>>, Seq<Seq<Seq<char>>>) {
    if is_aggregate {
        if results.len() > 0 && unwrap_map_spec(results[0]) is Some {
            let keys = keys_of(results[0]);
            (Some(keys.map_values(|k: Seq<char>| unicode_uppercase(k))), aggregate_rows(results, keys))
        } else {
            (None, Seq::empty())
        }
    } else {
        (Some(message_header()), results.map_values(|v: Json| message_row(v)))
    }
}

fn upper_all(v: &Vec<String>) -> (r: Vec<String>)
    ensures
        strings_view(r@) == strings_view(v@).map_values(|k: Seq<char>| unicode_uppercase(k)),
{
    let mut r: Vec<String> = Vec::new();
    let mut i: usize = 0;
    while i < v.len()
        invariant
            i <= v@.len(),
            r@.len() == i,
            forall|k: int| 0 <= k < i ==> #[trigger] r@[k]@ == unicode_uppercase(v@[k]@),
        decreases v@.len() - i,
    {
        r.push(to_uppercase(v[i].as_str()));
        i += 1;
    }
    assert(strings_view(r@) =~= strings_view(v@).map_values(|k: Seq<char>| unicode_uppercase(k)));
    r
}

/// The cells of the text table for `results`.
pub fn text_table(results: &Vec<Json>, is_aggregate: bool) -> (r: (Option<Vec<String>>, Vec<Vec<String>>))
    ensures
        ({
            let (h, rows) = text_table_spec(results@, is_aggregate);
            &&& match (r.0, h) {
                (Some(a), Some(b)) => strings_view(a@) == b,
                (None, None) => true,
                _ => false,
            }
            &&& rows_view(r.1@) == rows
        }),
{
    let mut rows: Vec<Vec<String>> = Vec::new();
    if is_aggregate {
        if results.len() == 0 {
            assert(rows_view(rows@) =~= Seq::<Seq<Seq<char>>>::empty());
            return (None, rows);
        }
        let first = match unwrap_map(&results[0]) {
            Some(e) => e,
            None => {
                assert(rows_view(rows@) =~= Seq::<Seq<Seq<char>>>::empty());
                return (None, rows);
            }
        };
        let mut keys: Vec<String> = Vec::new();
        let mut j: usize = 0;
        while j < first.len()
            invariant
                j <= first@.len(),
                keys@.len() == j,
                forall|k: int| 0 <= k < j ==> #[trigger] keys@[k]@ == first@[k].0@,
            decreases first@.len() - j,
        {
            keys.push(first[j].0.clone());
            j += 1;
        }
        assert(strings_view(keys@) =~= keys_of(results@[0]));
        let header = upper_all(&keys);
        let mut i: usize = 0;
        while i < results.len()
            invariant
                i <= results@.len(),
                strings_view(keys@) == keys_of(results@[0]),
                rows_view(rows@) == aggregate_rows(results@.take(i as int), keys_of(results@[0])),
            decreases results@.len() - i,
        {
            assert(results@.take(i + 1).drop_last() =~= results@.take(i as int));
            let ghost before = rows_view(rows@);
            if unwrap_map(&results[i]).is_some() {
                rows.push(row_cells(&results[i], &keys));
                assert(rows_view(rows@) =~= before.push(row_for(results@[i as int], keys_of(results@[0]))));
            }
            i += 1;
        }
        assert(results@.take(results@.len() as int) =~= results@);
        (Some(header), rows)
    } else {
        let mut header: Vec<String> = Vec::new();
        header.push(String::from_str("TIME"));
        header.push(String::from_str("SOURCE"));
        header.push(String::from_str("MESSAGE"));
        proof {
            reveal_strlit("TIME");
            reveal_strlit("SOURCE");
            reveal_strlit("MESSAGE");
            assert(strings_view(header@) =~= message_header());
        }
        let mut i: usize = 0;
        while i < results.len()
            invariant
                i <= results@.len(),
                rows@.len() == i,
                forall|k: int| 0 <= k < i ==> #[trigger] strings_view(rows@[k]@) == message_row(results@[k]),
            decreases results@.len() - i,
        {
            rows.push(message_cells(&results[i]));
            i += 1;
        }
        assert(rows_view(rows@) =~= results@.map_values(|v: Json| message_row(v)));
        (Some(header), rows)
    }
}

/// The text `comfy_table` lays out for a borderless table
/// (`presets::NOTHING`) whose columns fit `width` columns when one is given
/// (`ContentArrangement::Dynamic`), with the given header and rows.
pub uninterp spec fn table_text(
    header: Option<Seq<Seq<char>>>,
    rows: Seq<Seq<Seq<char>>>,
    width: Option<u16>,
) -> Seq<char>;

/// `comfy_table::Table` without borders, dynamic arrangement, `force_no_tty`
/// (so that it reads neither the terminal's width nor whether it styles) and
/// the given width, header and rows, then `to_string`. The text is a
/// function of those alone and is named, not spelled out.
#[verifier::external_body]
fn render_table(header: Option<&Vec<String>>, rows: &Vec<Vec<String>>, width: Option<u16>) -> (r: String)
    ensures
        r@ == table_text(
            match header {
                Some(h) => Some(strings_view(h@)),
                None => None,
            },
            rows_view(rows@),
            width,
        ),
{
    let mut table = comfy_table::Table::new();
    table.force_no_tty();
    if let Some(w) = width {
        table.set_width(w);
    }
    table.set_content_arrangement(comfy_table::ContentArrangement::Dynamic);
    table.load_preset(comfy_table::presets::NOTHING);
    if let Some(h) = header {
        table.set_header(h);
    }
    for row in rows {
        table.add_row(row);
    }
    table.to_string()
}

/// The table of the fields asked for: their upper-cased names as the
/// header, and one row per result.
pub open spec fn fields_table_spec(results: Seq<Json>, fields: Seq<Seq<char>>) -> (Seq<Seq<char>>, Seq<Seq<Seq<char>>>) {
    (fields.map_values(|f: Seq<char>| unicode_uppercase(f)), results.map_values(|v: Json| row_for(v, fields)))
}

/// The cells of the table of the fields asked for.
pub fn fields_table(results: &Vec<Json>, fields: &Vec<String>) -> (r: (Vec<String>, Vec<Vec<String>>))
    ensures
        strings_view(r.0@) == fields_table_spec(results@, strings_view(fields@)).0,
        rows_view(r.1@) == fields_table_spec(results@, strings_view(fields@)).1,
{
    let header = upper_all(fields);
    let mut rows: Vec<Vec<String>> = Vec::new();
    let mut i: usize = 0;
    while i < results.len()
        invariant
            i <= results@.len(),
            rows@.len() == i,
            forall|k: int| 0 <= k < i ==> #[trigger] strings_view(rows@[k]@) == row_for(results@[k], strings_view(fields@)),
        decreases results@.len() - i,
    {
        rows.push(row_cells(&results[i], fields));
        i += 1;
    }
    assert(rows_view(rows@) =~= results@.map_values(|v: Json| row_for(v, strings_view(fields@))));
    (header, rows)
}


/// `keys` added to `acc` in order, each only if not there yet.
pub open spec fn add_new_keys(acc: Seq<Seq<char>>, keys: Seq<Seq<char>>) -> Seq<Seq<char>>
    decreases keys.len(),
{
    if keys.len() == 0 {
        acc
    } else {
        let a = add_new_keys(acc, keys.drop_last());
        if a.contains(keys.last()) {
            a
        } else {
            a.push(keys.last())
        }
    }
}

/// The CSV columns when no fields are asked for: every key of every
/// result's object, in the order first seen.
pub open spec fn csv_columns(results: Seq<Json>) -> Seq<Seq<char>>
    decreases results.len(),
{
    if results.len() == 0 {
        Seq::empty()
    } else {
        add_new_keys(csv_columns(results.drop_last()), keys_of(results.last()))
    }
}

fn contains_string(v: &Vec<String>, s: &String) -> (r: bool)
    ensures
        r == strings_view(v@).contains(s@),
{
    let mut i: usize = 0;
    while i < v.len()
        invariant
            i <= v@.len(),
            forall|k: int| 0 <= k < i ==> v@[k]@ != s@,
        decreases v@.len() - i,
    {
        if v[i] == *s {
            assert(strings_view(v@)[i as int] == s@);
            return true;
        }
        i += 1;
    }
    assert(!strings_view(v@).contains(s@)) by {
        if strings_view(v@).contains(s@) {
            let k = choose|k: int| 0 <= k < strings_view(v@).len() && strings_view(v@)[k] == s@;
            assert(v@[k]@ == s@);
        }
    }
    false
}

fn collect_columns(results: &Vec<Json>) -> (r: Vec<String>)
    ensures
        strings_view(r@) == csv_columns(results@),
{
    let mut cols: Vec<String> = Vec::new();
    let mut i: usize = 0;
    while i < results.len()
        invariant
            i <= results@.len(),
            strings_view(cols@) == csv_columns(results@.take(i as int)),
        decreases results@.len() - i,
    {
        assert(results@.take(i + 1).drop_last() =~= results@.take(i as int));
        assert(results@.take(i + 1).last() == results@[i as int]);
        let ghost start = strings_view(cols@);
        match unwrap_map(&results[i]) {
            Some(obj) => {
                let ghost keys = keys_of(results@[i as int]);
                let mut j: usize = 0;
                while j < obj.len()
                    invariant
                        j <= obj@.len(),
                        keys == obj@.map_values(|m: (String, Json)| m.0@),
                        strings_view(cols@) == add_new_keys(start, keys.take(j as int)),
                    decreases obj@.len() - j,
                {
                    assert(keys.take(j + 1).drop_last() =~= keys.take(j as int));
                    assert(keys.take(j + 1).last() == obj@[j as int].0@);
                    if !contains_string(&cols, &obj[j].0) {
                        let ghost before = strings_view(cols@);
                        cols.push(obj[j].0.clone());
                        assert(strings_view(cols@) =~= before.push(obj@[j as int].0@));
                    }
                    j += 1;
                }
                assert(keys.take(obj@.len() as int) =~= keys);
            }
            None => {
                assert(keys_of(results@[i as int]) =~= Seq::<Seq<char>>::empty());
            }
        }
        i += 1;
    }
    assert(results@.take(results@.len() as int) =~= results@);
    cols
}

/// The bytes `csv::Writer` (default settings) writes for these records,
/// when it succeeds.
pub uninterp spec fn csv_document(records: Seq<Seq<Seq<char>>>) -> Seq<u8>;

/// `csv::Writer::from_writer(vec![])`, `write_record` for each record in
/// turn, then `into_inner`: the CSV bytes of the records, or the text of
/// the first error. The bytes are named, not spelled out (quoting follows
/// the crate's rules). Writing into a vector cannot fail, and the writer
/// (not flexible by default) refuses only records of unequal lengths, so
/// records of one length are always written.
#[verifier::external_body]
fn write_csv(records: &Vec<Vec<String>>) -> (r: Result<Vec<u8>, String>)
    ensures
        r matches Ok(b) ==> b@ == csv_document(rows_view(records@)),
        (forall|i: int, j: int| 0 <= i < records@.len() && 0 <= j < records@.len()
            ==> #[trigger] records@[i]@.len() == #[trigger] records@[j]@.len()) ==> r is Ok,
{
    let mut wtr = csv::Writer::from_writer(vec![]);
    for record in records {
        wtr.write_record(record).map_err(|e| e.to_string())?;
    }
    wtr.into_inner().map_err(|e| e.to_string())
}

/// The records of the CSV output: the header, then one row per result.
pub open spec fn csv_records(results: Seq<Json>, fields: Option<Seq<Seq<char>>>) -> Seq<Seq<Seq<char>>> {
    let columns = match fields {
        Some(f) => f,
        None => csv_columns(results),
    };
    seq![columns] + results.map_values(|v: Json| row_for(v, columns))
}

/// The message for a CSV failure.
pub open spec fn csv_error_message(detail: Seq<char>) -> Seq<char> {
    "CSV error: "@ + detail
}

/// The bytes `-o csv` writes: nothing for no results; else the header
/// (the fields asked for, or every key seen) and a row per result.
pub fn csv_output(results: &Vec<Json>, fields: Option<&Vec<String>>) -> (r: Result<Vec<u8>, String>)
    ensures
        results@.len() == 0 ==> (r matches Ok(b) && b@.len() == 0),
        results@.len() > 0 ==> (r matches Ok(b) && b@ == csv_document(csv_records(
            results@,
            match fields {
                Some(f) => Some(strings_view(f@)),
                None => None,
            },
        ))),
{
    if results.len() == 0 {
        return Ok(Vec::new());
    }
    let columns: Vec<String> = match fields {
        Some(f) => {
            let mut c: Vec<String> = Vec::new();
            let mut i: usize = 0;
            while i < f.len()
                invariant
                    i <= f@.len(),
                    c@.len() == i,
                    forall|k: int| 0 <= k < i ==> #[trigger] c@[k]@ == f@[k]@,
                decreases f@.len() - i,
            {
                c.push(f[i].clone());
                i += 1;
            }
            assert(strings_view(c@) =~= strings_view(f@));
            c
        }
        None => collect_columns(results),
    };
    let ghost cols = strings_view(columns@);
    let mut all: Vec<Vec<String>> = Vec::new();
    let mut i: usize = 0;
    while i < results.len()
        invariant
            i <= results@.len(),
            strings_view(columns@) == cols,
            all@.len() == i,
            forall|k: int| 0 <= k < i ==> #[trigger] strings_view(all@[k]@) == row_for(results@[k], cols),
            forall|k: int| 0 <= k < i ==> #[trigger] all@[k]@.len() == columns@.len(),
        decreases results@.len() - i,
    {
        let row = row_cells(&results[i], &columns);
        assert(row@.len() == strings_view(row@).len());
        all.push(row);
        i += 1;
    }
    all.insert(0, columns);
    assert forall|a: int, b: int| 0 <= a < all@.len() && 0 <= b < all@.len()
        implies #[trigger] all@[a]@.len() == #[trigger] all@[b]@.len() by {
        assert(all@[a]@.len() == cols.len());
        assert(all@[b]@.len() == cols.len());
    }
    assert(rows_view(all@) =~= seq![cols] + results@.map_values(|v: Json| row_for(v, cols))) by {
        assert forall|k: int| 1 <= k < all@.len() implies #[trigger] strings_view(all@[k]@) == row_for(results@[k - 1], cols) by {
        }
    }
    assert(rows_view(all@) == csv_records(
        results@,
        match fields {
            Some(f) => Some(strings_view(f@)),
            None => None,
        },
    ));
    match write_csv(&all) {
        Ok(b) => Ok(b),
        Err(d) => {
            let e = concat("CSV error: ", d.as_str());
            proof {
                reveal_strlit("CSV error: ");
                assert(e@ == csv_error_message(d@));
            }
            Err(e)
        }
    }
}


/// The text table of results, laid out for `width` terminal columns (none
/// when the output is no terminal): its cells are `text_table`'s.
pub open spec fn text_output_spec(results: Seq<Json>, is_aggregate: bool, width: Option<u16>) -> Seq<char> {
    let (h, rows) = text_table_spec(results, is_aggregate);
    table_text(h, rows, width)
}

/// What the command prints to the text table of results: nothing but a
/// note on stderr for no results, else the table laid out for `width`.
pub fn text_output(results: &Vec<Json>, is_aggregate: bool, width: Option<u16>) -> (r: Option<String>)
    ensures
        results@.len() == 0 ==> r is None,
        results@.len() > 0 ==> (r matches Some(t) && t@ == text_output_spec(results@, is_aggregate, width)),
{
    if results.len() == 0 {
        return None;
    }
    let (header, rows) = text_table(results, is_aggregate);
    let text = match &header {
        Some(h) => render_table(Some(h), &rows, width),
        None => render_table(None, &rows, width),
    };
    Some(text)
}

/// The table of the fields asked for, laid out for `width`.
pub open spec fn fields_output_spec(results: Seq<Json>, fields: Seq<Seq<char>>, width: Option<u16>) -> Seq<char> {
    let (h, rows) = fields_table_spec(results, fields);
    table_text(Some(h), rows, width)
}

/// What the command prints for the table of the fields asked for: nothing
/// but a note on stderr for no results, else the table, whose cells are
/// `fields_table`'s, laid out for `width`.
pub fn fields_output(results: &Vec<Json>, fields: &Vec<String>, width: Option<u16>) -> (r: Option<String>)
    ensures
        results@.len() == 0 ==> r is None,
        results@.len() > 0 ==> (r matches Some(t) && t@ == fields_output_spec(results@, strings_view(fields@), width)),
{
    if results.len() == 0 {
        return None;
    }
    let (header, rows) = fields_table(results, fields);
    Some(render_table(Some(&header), &rows, width))
}

/// The field names of a `--fields` argument: its comma-separated pieces,
/// each without surrounding white space.
pub open spec fn field_list(s: Seq<char>) -> Seq<Seq<char>> {
    split_spec(s, ',').map_values(|p: Seq<char>| trim_spec(p))
}

/// The field names of a `--fields` argument.
pub fn parse_fields(s: &str) -> (r: Vec<String>)
    ensures
        strings_view(r@) == field_list(s@),
{
    let chars = to_chars(s);
    let pieces = split_chars(chars.as_slice(), ',');
    let mut r: Vec<String> = Vec::new();
    let mut i: usize = 0;
    while i < pieces.len()
        invariant
            i <= pieces@.len(),
            char_vecs_view(pieces@) == split_spec(s@, ','),
            r@.len() == i,
            forall|k: int| 0 <= k < i ==> #[trigger] r@[k]@ == trim_spec(pieces@[k]@),
        decreases pieces@.len() - i,
    {
        let t = trim_chars(pieces[i].as_slice());
        r.push(from_chars(t.as_slice()));
        i += 1;
    }
    assert(strings_view(r@) =~= field_list(s@));
    r
}

/// How results are shown.
pub enum OutputMode {
    /// One `_raw` line per result (`--raw`).
    Raw,
    /// A pretty JSON array (`-o json`).
    Json,
    /// CSV with a header (`-o csv`).
    Csv,
    /// A table of the fields asked for (`--fields` with text output).
    FieldsTable,
    /// A table of messages or aggregate records.
    Text,
}

/// The output mode: `--raw` first, then `-o json`, `-o csv`, then a table
/// of the fields asked for, else the plain text table.
pub open spec fn output_mode_spec(raw: bool, output: Seq<char>, has_fields: bool) -> OutputMode {
    if raw {
        OutputMode::Raw
    } else if output == "json"@ {
        OutputMode::Json
    } else if output == "csv"@ {
        OutputMode::Csv
    } else if has_fields {
        OutputMode::FieldsTable
    } else {
        OutputMode::Text
    }
}

/// Chooses the output mode.
pub fn output_mode(raw: bool, output: &str, has_fields: bool) -> (r: OutputMode)
    ensures
        r == output_mode_spec(raw, output@, has_fields),
{
    if raw {
        return OutputMode::Raw;
    }
    let o = to_chars(output);
    let j = to_chars("json");
    let c = to_chars("csv");
    proof {
        reveal_strlit("json");
        reveal_strlit("csv");
    }
    if chars_eq(o.as_slice(), j.as_slice()) {
        OutputMode::Json
    } else if chars_eq(o.as_slice(), c.as_slice()) {
        OutputMode::Csv
    } else if has_fields {
        OutputMode::FieldsTable
    } else {
        OutputMode::Text
    }
}

/// What the command prints.
pub enum Printout {
    /// One text, printed with a line break after it.
    Line(String),
    /// Several lines, each printed with a line break after it.
    Lines(Vec<String>),
    /// Bytes written as they are.
    Bytes(Vec<u8>),
    /// Nothing on stdout; `No results found.` on stderr.
    NoResults,
}

/// `shown` is `results` filtered to `fields`, result by result.
pub open spec fn is_filtering(shown: Seq<Json>, results: Seq<Json>, fields: Seq<Seq<char>>) -> bool {
    &&& shown.len() == results.len()
    &&& forall|i: int| 0 <= i < shown.len() ==> match #[trigger] shown[i] {
        Json::Object(e) => members_view(e@) == filtered_members(results[i], fields),
        _ => false,
    }
}

/// What is printed for the results to show, in the chosen mode.
pub open spec fn printout_spec(
    r: Result<Printout, String>,
    shown: Seq<Json>,
    mode: OutputMode,
    fields: Option<Seq<Seq<char>>>,
    is_aggregate: bool,
    width: Option<u16>,
) -> bool {
    match mode {
        OutputMode::Raw => r matches Ok(Printout::Lines(v)) && strings_view(v@) == shown.map_values(|x: Json| raw_line(x)),
        OutputMode::Json => r matches Ok(Printout::Line(t)) && t@ == json_output_text(shown, fields is Some),
        OutputMode::Csv => r matches Ok(Printout::Bytes(b)) && if shown.len() == 0 {
            b@.len() == 0
        } else {
            b@ == csv_document(csv_records(shown, fields))
        },
        OutputMode::FieldsTable => if shown.len() == 0 {
            r matches Ok(Printout::NoResults)
        } else {
            r matches Ok(Printout::Line(t)) && t@ == fields_output_spec(shown, fields.unwrap(), width)
        },
        OutputMode::Text => if shown.len() == 0 {
            r matches Ok(Printout::NoResults)
        } else {
            r matches Ok(Printout::Line(t)) && t@ == text_output_spec(shown, is_aggregate, width)
        },
    }
}

/// The field names asked for, if any.
pub open spec fn requested_fields(fields: Option<&str>) -> Option<Seq<Seq<char>>> {
    match fields {
        Some(f) => Some(field_list(f@)),
        None => None,
    }
}

/// `shown` is what is shown of `results`: filtered to the fields asked
/// for, or all of it.
pub open spec fn shown_results(shown: Seq<Json>, results: Seq<Json>, fields: Option<Seq<Seq<char>>>) -> bool {
    match fields {
        Some(l) => is_filtering(shown, results, l),
        None => shown == results,
    }
}

/// What a search prints: the results, filtered to the `--fields` asked
/// for (if any), in the mode chosen by `--raw` and `-o`; tables are laid
/// out for `width` terminal columns (none when the output is no terminal).
pub fn render_results(
    results: Vec<Json>,
    raw: bool,
    output: &str,
    fields: Option<&str>,
    is_aggregate: bool,
    width: Option<u16>,
) -> (r: Result<Printout, String>)
    ensures
        exists|shown: Seq<Json>| {
            &&& shown_results(shown, results@, requested_fields(fields))
            &&& #[trigger] printout_spec(
                r,
                shown,
                output_mode_spec(raw, output@, fields is Some),
                requested_fields(fields),
                is_aggregate,
                width,
            )
        },
{
    let ghost orig = results@;
    let list: Option<Vec<String>> = match fields {
        Some(f) => Some(parse_fields(f)),
        None => None,
    };
    let shown = match &list {
        Some(l) => filter_fields(results, l),
        None => results,
    };
    let ghost lv = match fields {
        Some(f) => Some(field_list(f@)),
        None => None,
    };
    assert(match lv {
        Some(l) => is_filtering(shown@, orig, l),
        None => shown@ == orig,
    }) by {
        match fields {
            Some(f) => {
                assert(strings_view(list.unwrap()@) == field_list(f@));
            }
            None => {}
        }
    }
    let mode = output_mode(raw, output, fields.is_some());
    let ghost sv = shown@;
    let r = match mode {
        OutputMode::Raw => {
            let lines = raw_lines(&shown);
            assert(strings_view(lines@) =~= shown@.map_values(|x: Json| raw_line(x)));
            Ok(Printout::Lines(lines))
        }
        OutputMode::Json => Ok(Printout::Line(json_output(shown, fields.is_some()))),
        OutputMode::Csv => {
            let out = match &list {
                Some(l) => csv_output(&shown, Some(l)),
                None => csv_output(&shown, None),
            };
            match out {
                Ok(b) => Ok(Printout::Bytes(b)),
                Err(e) => Err(e),
            }
        }
        OutputMode::FieldsTable => {
            let l = match &list {
                Some(l) => l,
                None => {
                    assert(false);
                    return Err(String::new());
                }
            };
            match fields_output(&shown, l, width) {
                Some(t) => Ok(Printout::Line(t)),
                None => Ok(Printout::NoResults),
            }
        }
        OutputMode::Text => match text_output(&shown, is_aggregate, width) {
            Some(t) => Ok(Printout::Line(t)),
            None => Ok(Printout::NoResults),
        },
    };
    assert(printout_spec(r, sv, output_mode_spec(raw, output@, fields is Some), lv, is_aggregate, width));
    assert(match lv {
        Some(l) => is_filtering(sv, orig, l),
        None => sv == orig,
    });
    r
}

} // verus!
