//! Value-free summaries of a serialized query result: its shape (row count,
//! the row-cap flag, column names with a type label inferred from each
//! first-row cell's JSON kind), per-column health counts, and the single
//! count a `COUNT(*)` probe returns. No cell value is ever copied out.

use vstd::prelude::*;

use crate::json::{
    array_view, bool_of, clone_json, json_eq, json_get, object_view, push_member, u64_of, i64_of,
    Json, JsonNumber, JsonV, NumberV,
};

verus! {

/// A declared-style type label for a JSON value, from its kind alone.
pub open spec fn value_label(v: JsonV) -> Seq<char> {
    match v {
        JsonV::Null => "NULL"@,
        JsonV::Bool(_) => "BOOLEAN"@,
        JsonV::Number(NumberV::Float(_)) => "REAL"@,
        JsonV::Number(_) => "INTEGER"@,
        JsonV::String(_) => "TEXT"@,
        JsonV::Array(_) => "JSON"@,
        JsonV::Object(_) => "JSON"@,
    }
}

/// A declared-style type label for one JSON value, inferred from its kind.
pub fn value_type_label(value: &Json) -> (r: Json)
    ensures
        r@ == JsonV::String(value_label(value@)),
{
    let label = match value {
        Json::Null => "NULL",
        Json::Bool(_) => "BOOLEAN",
        Json::Number(JsonNumber::Float(_)) => "REAL",
        Json::Number(_) => "INTEGER",
        Json::String(_) => "TEXT",
        Json::Array(_) => "JSON",
        Json::Object(_) => "JSON",
    };
    Json::String(label.to_owned())
}

/// The result's `row_count`, 0 when absent or not an unsigned integer.
pub open spec fn row_count_of(r: JsonV) -> u64 {
    match json_get(r, "row_count"@) {
        Some(v) => match u64_of(v) {
            Some(n) => n,
            None => 0,
        },
        None => 0,
    }
}

/// The result's `truncated`, false when absent or not a boolean.
pub open spec fn truncated_of(r: JsonV) -> bool {
    match json_get(r, "truncated"@) {
        Some(v) => match bool_of(v) {
            Some(b) => b,
            None => false,
        },
        None => false,
    }
}

/// The items of `key`'s member when it is an array.
pub open spec fn array_member(r: JsonV, key: Seq<char>) -> Option<Seq<JsonV>> {
    match json_get(r, key) {
        Some(JsonV::Array(items)) => Some(items),
        _ => None,
    }
}

/// The cells of the result's first row, when it has one and it is an array.
pub open spec fn first_row_of(r: JsonV) -> Option<Seq<JsonV>> {
    match array_member(r, "rows"@) {
        Some(rows) => if rows.len() > 0 {
            match rows[0] {
                JsonV::Array(cells) => Some(cells),
                _ => None,
            }
        } else {
            None
        },
        None => None,
    }
}

/// The type label of column `i`: the kind of the first row's cell there, or
/// `null` when there is no such cell.
pub open spec fn column_type(first: Option<Seq<JsonV>>, i: int) -> JsonV {
    match first {
        Some(cells) => if 0 <= i < cells.len() {
            JsonV::String(value_label(cells[i]))
        } else {
            JsonV::Null
        },
        None => JsonV::Null,
    }
}

/// The shape entry of one column.
pub open spec fn column_shape(name: JsonV, ty: JsonV) -> JsonV {
    JsonV::Object(seq![("name"@, name), ("type"@, ty)])
}

/// The value-free shape of a serialized query result.
pub open spec fn spec_shape_of(r: JsonV) -> JsonV {
    let columns = match array_member(r, "columns"@) {
        Some(names) => Seq::new(
            names.len(),
            |i: int| column_shape(names[i], column_type(first_row_of(r), i)),
        ),
        None => Seq::empty(),
    };
    JsonV::Object(
        seq![
            ("row_count"@, JsonV::Number(NumberV::PosInt(row_count_of(r)))),
            ("truncated"@, JsonV::Bool(truncated_of(r))),
            ("columns"@, JsonV::Array(columns)),
        ],
    )
}

fn row_count_field(result: &Json) -> (n: u64)
    ensures
        n == row_count_of(result@),
{
    match result.get("row_count") {
        Some(v) => match v.as_u64() {
            Some(n) => n,
            None => 0,
        },
        None => 0,
    }
}

fn truncated_field(result: &Json) -> (b: bool)
    ensures
        b == truncated_of(result@),
{
    match result.get("truncated") {
        Some(v) => match v.as_bool() {
            Some(b) => b,
            None => false,
        },
        None => false,
    }
}

fn array_field<'a>(result: &'a Json, key: &str) -> (r: Option<&'a Vec<Json>>)
    ensures
        match r {
            Some(v) => array_member(result@, key@) == Some(array_view(v@)),
            None => array_member(result@, key@) is None,
        },
{
    match result.get(key) {
        Some(Json::Array(items)) => Some(items),
        _ => None,
    }
}

/// A JSON object from its members.
fn object_of(m: Vec<(String, Json)>) -> (r: Json)
    ensures
        r@ == JsonV::Object(object_view(m@)),
{
    Json::Object(m)
}

/// Builds the value-free shape of a serialized query result: `row_count`,
/// `truncated`, and `columns` (name and inferred type label). No cell value
/// is copied; with no rows the type label is `null` and the names remain.
pub fn shape_of(result: &Json) -> (r: Json)
    ensures
        r@ == spec_shape_of(result@),
{
    let row_count = row_count_field(result);
    let truncated = truncated_field(result);
    let first_row: Option<&Vec<Json>> = match array_field(result, "rows") {
        Some(rows) => {
            proof {
                crate::json::lemma_array_view_len(rows@);
            }
            if rows.len() > 0 {
                proof {
                    crate::json::lemma_array_view_index(rows@, 0);
                }
                match &rows[0] {
                    Json::Array(cells) => Some(cells),
                    _ => None,
                }
            } else {
                None
            }
        },
        None => None,
    };
    let ghost first = first_row_of(result@);
    assert(match first_row {
        Some(c) => first == Some(array_view(c@)),
        None => first is None,
    });
    let mut columns: Vec<Json> = Vec::new();
    let ghost names_v = array_member(result@, "columns"@);
    match array_field(result, "columns") {
        Some(names) => {
            proof {
                crate::json::lemma_array_view_len(names@);
            }
            let mut i: usize = 0;
            while i < names.len()
                invariant
                    i <= names.len(),
                    names_v == Some(array_view(names@)),
                    array_view(names@).len() == names@.len(),
                    match first_row {
                        Some(c) => first == Some(array_view(c@)),
                        None => first is None,
                    },
                    array_view(columns@) =~= Seq::new(
                        i as nat,
                        |k: int| column_shape(array_view(names@)[k], column_type(first, k)),
                    ),
                decreases names.len() - i,
            {
                proof {
                    crate::json::lemma_array_view_index(names@, i as int);
                }
                let ty = match first_row {
                    Some(cells) => {
                        proof {
                            crate::json::lemma_array_view_len(cells@);
                        }
                        if i < cells.len() {
                            proof {
                                crate::json::lemma_array_view_index(cells@, i as int);
                            }
                            value_type_label(&cells[i])
                        } else {
                            Json::Null
                        }
                    },
                    None => Json::Null,
                };
                assert(ty@ == column_type(first, i as int));
                let mut entry: Vec<(String, Json)> = Vec::new();
                proof {
                    crate::json::lemma_object_view_literal(entry@);
                    assert(object_view(entry@) =~= Seq::empty());
                }
                push_member(&mut entry, "name", clone_json(&names[i]));
                push_member(&mut entry, "type", ty);
                let e = object_of(entry);
                assert(object_view(entry@) =~= seq![
                    ("name"@, array_view(names@)[i as int]),
                    ("type"@, column_type(first, i as int)),
                ]);
                proof {
                    crate::json::lemma_array_view_push(columns@, e);
                }
                columns.push(e);
                i += 1;
            }
        },
        None => {},
    }
    let mut m: Vec<(String, Json)> = Vec::new();
    proof {
        crate::json::lemma_object_view_literal(m@);
        assert(object_view(m@) =~= Seq::empty());
        crate::json::lemma_array_view_len(columns@);
    }
    push_member(&mut m, "row_count", crate::json::json_uint(row_count));
    push_member(&mut m, "truncated", Json::Bool(truncated));
    let ghost cols_v = array_view(columns@);
    push_member(&mut m, "columns", Json::Array(columns));
    let r = object_of(m);
    assert(cols_v =~= match names_v {
        Some(names) => Seq::new(
            names.len(),
            |i: int| column_shape(names[i], column_type(first, i)),
        ),
        None => Seq::empty(),
    });
    assert(object_view(m@) =~= seq![
        ("row_count"@, JsonV::Number(NumberV::PosInt(row_count))),
        ("truncated"@, JsonV::Bool(truncated)),
        ("columns"@, JsonV::Array(cols_v)),
    ]);
    r
}

/// A JSON number equal to zero (integer 0 or float 0.0).
pub open spec fn numeric_zero(v: JsonV) -> bool {
    match v {
        JsonV::Number(NumberV::PosInt(n)) => n == 0,
        JsonV::Number(NumberV::NegInt(n)) => n == 0,
        JsonV::Number(NumberV::Float(f)) => f.is_zero,
        _ => false,
    }
}

/// True when `value` is a JSON number equal to zero.
pub fn is_numeric_zero(value: &Json) -> (r: bool)
    ensures
        r == numeric_zero(value@),
{
    match value {
        Json::Number(JsonNumber::PosInt(n)) => *n == 0,
        Json::Number(JsonNumber::NegInt(n)) => *n == 0,
        Json::Number(JsonNumber::Float(f)) => f.is_zero,
        _ => false,
    }
}

/// The cell of `row` at column `index`: `None` when the row is not an
/// array or is shorter.
pub open spec fn cell_of(row: JsonV, index: int) -> Option<JsonV> {
    match row {
        JsonV::Array(cells) => if 0 <= index < cells.len() {
            Some(cells[index])
        } else {
            None
        },
        _ => None,
    }
}

/// What a cell counts as for distinctness: a missing cell and `null` are
/// the one null value.
pub open spec fn cell_key(row: JsonV, index: int) -> Option<JsonV> {
    match cell_of(row, index) {
        Some(JsonV::Null) => None,
        other => other,
    }
}

/// How many of `rows` have a null or missing cell at `index`.
pub open spec fn null_count(rows: Seq<JsonV>, index: int) -> nat
    decreases rows.len(),
{
    if rows.len() == 0 {
        0
    } else {
        null_count(rows.drop_last(), index) + if cell_key(rows.last(), index) is None {
            1nat
        } else {
            0nat
        }
    }
}

/// How many of `rows` hold a numeric zero at `index`.
pub open spec fn zero_count(rows: Seq<JsonV>, index: int) -> nat
    decreases rows.len(),
{
    if rows.len() == 0 {
        0
    } else {
        zero_count(rows.drop_last(), index) + if cell_key(rows.last(), index) matches Some(v)
            && numeric_zero(v) {
            1nat
        } else {
            0nat
        }
    }
}

/// How many different values `s` holds.
pub open spec fn distinct_count<T>(s: Seq<T>) -> nat
    decreases s.len(),
{
    if s.len() == 0 {
        0
    } else {
        distinct_count(s.drop_last()) + if s.drop_last().contains(s.last()) {
            0nat
        } else {
            1nat
        }
    }
}

/// The keys of column `index` over `rows`.
pub open spec fn column_keys(rows: Seq<JsonV>, index: int) -> Seq<Option<JsonV>> {
    rows.map_values(|row: JsonV| cell_key(row, index))
}

/// The health counts of one column.
#[derive(Debug, PartialEq)]
pub struct ColumnHealth {
    pub name: Json,
    pub nulls: u64,
    pub distinct: usize,
    pub zeros: u64,
}

/// The value-free health report of a result: the row count, the row-cap
/// flag, and per-column counts. The null percentage is derived from
/// `nulls` and `row_count` by the caller.
#[derive(Debug, PartialEq)]
pub struct HealthReport {
    pub row_count: u64,
    pub truncated: bool,
    pub columns: Vec<ColumnHealth>,
}

/// `c` is the health of the column named `name` at `index` over `rows`.
pub open spec fn column_health_is(c: ColumnHealth, name: JsonV, rows: Seq<JsonV>, index: int) -> bool {
    &&& c.name@ == name
    &&& c.nulls == null_count(rows, index)
    &&& c.zeros == zero_count(rows, index)
    &&& c.distinct == distinct_count(column_keys(rows, index))
}

/// The count bounds every column's health obeys.
pub proof fn lemma_counts_bounded(rows: Seq<JsonV>, index: int)
    ensures
        null_count(rows, index) + zero_count(rows, index) <= rows.len(),
        distinct_count(column_keys(rows, index)) <= rows.len(),
    decreases rows.len(),
{
    if rows.len() > 0 {
        lemma_counts_bounded(rows.drop_last(), index);
        assert(column_keys(rows, index).drop_last() =~= column_keys(rows.drop_last(), index));
    }
}

fn key_of(row: &Json, index: usize) -> (r: Option<&Json>)
    ensures
        match r {
            Some(v) => cell_key(row@, index as int) == Some(v@),
            None => cell_key(row@, index as int) is None,
        },
{
    match row {
        Json::Array(cells) => {
            proof {
                crate::json::lemma_array_view_len(cells@);
            }
            if index < cells.len() {
                proof {
                    crate::json::lemma_array_view_index(cells@, index as int);
                }
                if cells[index].is_null() {
                    None
                } else {
                    Some(&cells[index])
                }
            } else {
                None
            }
        },
        _ => None,
    }
}

/// The health counts of column `index` over `rows`.
fn health_of_column(name: &Json, rows: &Vec<Json>, index: usize) -> (c: ColumnHealth)
    ensures
        column_health_is(c, name@, array_view(rows@), index as int),
{
    let ghost rv = array_view(rows@);
    proof {
        crate::json::lemma_array_view_len(rows@);
    }
    let mut nulls: u64 = 0;
    let mut zeros: u64 = 0;
    let mut seen: Vec<&Json> = Vec::new();
    let mut seen_null = false;
    let mut r: usize = 0;
    while r < rows.len()
        invariant
            r <= rows.len(),
            rv == array_view(rows@),
            rv.len() == rows@.len(),
            nulls == null_count(rv.take(r as int), index as int),
            zeros == zero_count(rv.take(r as int), index as int),
            nulls + zeros <= r,
            seen_null == column_keys(rv.take(r as int), index as int).contains(None),
            forall|x: JsonV|
                (exists|q: int| 0 <= q < seen@.len() && (#[trigger] seen@[q])@ == x)
                    <==> column_keys(rv.take(r as int), index as int).contains(Some(x)),
            seen@.len() + (if seen_null { 1int } else { 0int }) == distinct_count(
                column_keys(rv.take(r as int), index as int),
            ),
        decreases rows.len() - r,
    {
        proof {
            crate::json::lemma_array_view_index(rows@, r as int);
            lemma_counts_bounded(rv.take(r as int), index as int);
        }
        let ghost before = rv.take(r as int);
        let ghost after = rv.take(r as int + 1);
        assert(after.drop_last() =~= before);
        assert(after.last() == rv[r as int]);
        let ghost kb = column_keys(before, index as int);
        let ghost ka = column_keys(after, index as int);
        assert(ka.drop_last() =~= kb);
        assert(ka.last() == cell_key(rv[r as int], index as int));
        match key_of(&rows[r], index) {
            None => {
                nulls = nulls + 1;
                assert(kb.contains(None) ==> ka.drop_last().contains(ka.last()));
                seen_null = true;
                assert(ka[ka.len() - 1] == ka.last());
                assert forall|x: JsonV|
                    (exists|q: int| 0 <= q < seen@.len() && (#[trigger] seen@[q])@ == x) implies ka.contains(
                        Some(x),
                    ) by {
                    assert(kb.contains(Some(x)));
                    let w = choose|w: int| 0 <= w < kb.len() && kb[w] == Some(x);
                    assert(ka[w] == kb[w]);
                }
                assert forall|x: JsonV| ka.contains(Some(x)) implies (exists|q: int|
                    0 <= q < seen@.len() && (#[trigger] seen@[q])@ == x) by {
                    let w = choose|w: int| 0 <= w < ka.len() && ka[w] == Some(x);
                    if w < kb.len() {
                        assert(kb[w] == ka[w]);
                        assert(kb.contains(Some(x)));
                    }
                }
            },
            Some(v) => {
                if is_numeric_zero(v) {
                    zeros = zeros + 1;
                }
                let mut found = false;
                let mut q: usize = 0;
                while q < seen.len()
                    invariant
                        q <= seen.len(),
                        found == exists|qq: int| 0 <= qq < q && (#[trigger] seen@[qq])@ == v@,
                    decreases seen.len() - q,
                {
                    if json_eq(seen[q], v) {
                        found = true;
                    }
                    q += 1;
                }
                assert(ka[ka.len() - 1] == ka.last());
                assert(ka.last() == Some(v@));
                assert(kb.contains(Some(v@)) == found);
                assert(ka.contains(None) == kb.contains(None)) by {
                    if ka.contains(None) {
                        let w = choose|w: int| 0 <= w < ka.len() && ka[w] == None::<JsonV>;
                        assert(w < kb.len());
                        assert(kb[w] == ka[w]);
                    }
                    if kb.contains(None) {
                        let w = choose|w: int| 0 <= w < kb.len() && kb[w] == None::<JsonV>;
                        assert(ka[w] == kb[w]);
                    }
                }
                let ghost old_seen = seen@;
                if !found {
                    seen.push(v);
                }
                assert forall|x: JsonV|
                    (exists|q: int| 0 <= q < seen@.len() && (#[trigger] seen@[q])@ == x) implies ka.contains(
                        Some(x),
                    ) by {
                    let q = choose|q: int| 0 <= q < seen@.len() && (#[trigger] seen@[q])@ == x;
                    if q < old_seen.len() {
                        assert(old_seen[q] == seen@[q]);
                        assert(kb.contains(Some(x)));
                        let w = choose|w: int| 0 <= w < kb.len() && kb[w] == Some(x);
                        assert(ka[w] == kb[w]);
                    } else {
                        assert(ka[ka.len() - 1] == Some(x));
                    }
                }
                assert forall|x: JsonV| ka.contains(Some(x)) implies (exists|q: int|
                    0 <= q < seen@.len() && (#[trigger] seen@[q])@ == x) by {
                    let w = choose|w: int| 0 <= w < ka.len() && ka[w] == Some(x);
                    if w < kb.len() {
                        assert(kb[w] == ka[w]);
                        assert(kb.contains(Some(x)));
                        let q = choose|q: int| 0 <= q < old_seen.len() && (#[trigger] old_seen[q])@ == x;
                        assert(seen@[q] == old_seen[q]);
                    } else if !found {
                        assert(seen@[old_seen.len() as int] == v);
                    } else {
                        assert(kb.contains(Some(v@)));
                    }
                }
            },
        }
        r += 1;
    }
    assert(rv.take(rows.len() as int) =~= rv);
    proof {
        lemma_counts_bounded(rv, index as int);
    }
    let distinct = if seen_null {
        seen.len() + 1
    } else {
        seen.len()
    };
    ColumnHealth { name: clone_json(name), nulls, distinct, zeros }
}

/// What `health_of` reports of a serialized result.
pub open spec fn health_report_is(h: HealthReport, result: JsonV) -> bool {
    let rows = match array_member(result, "rows"@) {
        Some(rows) => rows,
        None => Seq::empty(),
    };
    let names = match array_member(result, "columns"@) {
        Some(names) => names,
        None => Seq::empty(),
    };
    &&& h.row_count == row_count_of(result)
    &&& h.truncated == truncated_of(result)
    &&& h.columns@.len() == names.len()
    &&& forall|i: int| 0 <= i < names.len() ==> column_health_is(#[trigger] h.columns@[i], names[i], rows, i)
}

/// Builds the value-free column health report of a serialized result: per
/// column the null count, the number of distinct values (null counting as
/// one) and the numeric zero count. No cell value is copied.
pub fn health_of(result: &Json) -> (h: HealthReport)
    ensures
        health_report_is(h, result@),
{
    let row_count = row_count_field(result);
    let truncated = truncated_field(result);
    let empty: Vec<Json> = Vec::new();
    proof {
        crate::json::lemma_array_view_len(empty@);
    }
    let rows: &Vec<Json> = match array_field(result, "rows") {
        Some(rows) => rows,
        None => &empty,
    };
    let names: &Vec<Json> = match array_field(result, "columns") {
        Some(names) => names,
        None => &empty,
    };
    proof {
        crate::json::lemma_array_view_len(names@);
        assert(array_view(empty@) =~= Seq::empty());
    }
    let ghost names_v = array_view(names@);
    let ghost rows_v = array_view(rows@);
    let mut columns: Vec<ColumnHealth> = Vec::new();
    let mut i: usize = 0;
    while i < names.len()
        invariant
            i <= names.len(),
            names_v == array_view(names@),
            rows_v == array_view(rows@),
            names_v.len() == names@.len(),
            columns@.len() == i,
            forall|k: int| 0 <= k < i ==> column_health_is(#[trigger] columns@[k], names_v[k], rows_v, k),
        decreases names.len() - i,
    {
        proof {
            crate::json::lemma_array_view_index(names@, i as int);
        }
        let c = health_of_column(&names[i], rows, i);
        columns.push(c);
        i += 1;
    }
    HealthReport { row_count, truncated, columns }
}

/// The single integral count of a `SELECT COUNT(*)` result: exactly one row
/// of one column holding one integral number; anything else is `None`. An
/// integer beyond `i64` reads as `i64::MAX`, as a whole float beyond it
/// does: the value is taken through `f64`, whose cast saturates.
pub open spec fn spec_single_count(result: JsonV) -> Option<i64> {
    match (array_member(result, "rows"@), array_member(result, "columns"@)) {
        (Some(rows), Some(columns)) => {
            if rows.len() != 1 || columns.len() != 1 {
                None
            } else {
                let cell = match rows[0] {
                    JsonV::Array(cells) => if cells.len() == 1 {
                        Some(cells[0])
                    } else {
                        None
                    },
                    other => Some(other),
                };
                match cell {
                    Some(JsonV::Number(n)) => match i64_of(JsonV::Number(n)) {
                        Some(v) => Some(v),
                        None => match n {
                            NumberV::Float(f) => f.whole,
                            NumberV::PosInt(_) => Some(i64::MAX),
                            _ => None,
                        },
                    },
                    _ => None,
                }
            }
        },
        _ => None,
    }
}

/// Extracts a single integral count from a serialized `COUNT(*)` result;
/// anything that is not exactly one row, one column, one integral number is
/// `None` — never guessed.
pub fn single_count(result: &Json) -> (r: Option<i64>)
    ensures
        r == spec_single_count(result@),
{
    let rows = match array_field(result, "rows") {
        Some(rows) => rows,
        None => {
            return None;
        },
    };
    let columns = match array_field(result, "columns") {
        Some(columns) => columns,
        None => {
            return None;
        },
    };
    proof {
        crate::json::lemma_array_view_len(rows@);
        crate::json::lemma_array_view_len(columns@);
    }
    if rows.len() != 1 || columns.len() != 1 {
        return None;
    }
    proof {
        crate::json::lemma_array_view_index(rows@, 0);
    }
    let cell: &Json = match &rows[0] {
        Json::Array(cells) => {
            proof {
                crate::json::lemma_array_view_len(cells@);
            }
            if cells.len() == 1 {
                proof {
                    crate::json::lemma_array_view_index(cells@, 0);
                }
                &cells[0]
            } else {
                return None;
            }
        },
        other => other,
    };
    match cell {
        Json::Number(n) => match cell.as_i64() {
            Some(v) => Some(v),
            None => match n {
                JsonNumber::Float(f) => f.whole,
                JsonNumber::PosInt(_) => Some(i64::MAX),
                _ => None,
            },
        },
        _ => None,
    }
}

/// The `join_check` reason when no sound probe could be built.
pub const NO_PROBE_REASON: &'static str = "no sound fan-out probe could be built; the probe requires a single \
                    SELECT with one plain base table, at least one JOIN to another plain table, \
                    a top-level SUM/AVG/COUNT (without DISTINCT), and a WHERE that touches only \
                    the base table";

/// The `join_check` reason when a probe statement did not return a count.
pub const NO_COUNT_REASON: &'static str = "the probe statements did not each return a single numeric count";

/// The `join_check` report that no probe applies, with its reason.
pub open spec fn not_applicable(reason: Seq<char>) -> JsonV {
    JsonV::Object(seq![("applicable"@, JsonV::Bool(false)), ("reason"@, JsonV::String(reason))])
}

/// The report `join_check` gives for the two probe results.
pub open spec fn spec_join_report(joined: JsonV, base: JsonV) -> JsonV {
    match (spec_single_count(joined), spec_single_count(base)) {
        (Some(j), Some(b)) => JsonV::Object(
            seq![
                ("applicable"@, JsonV::Bool(true)),
                ("joined_rows"@, crate::json::int_json(j)),
                ("base_rows"@, crate::json::int_json(b)),
                ("fanned_out"@, JsonV::Bool(j > b)),
                ("dropped_rows"@, JsonV::Bool(j < b)),
            ],
        ),
        _ => not_applicable(NO_COUNT_REASON@),
    }
}

/// The `join_check` report when no sound probe could be built: never a
/// guess.
pub fn no_probe_report() -> (r: Json)
    ensures
        r@ == not_applicable(NO_PROBE_REASON@),
{
    not_applicable_report(NO_PROBE_REASON)
}

fn not_applicable_report(reason: &str) -> (r: Json)
    ensures
        r@ == not_applicable(reason@),
{
    let mut m: Vec<(String, Json)> = Vec::new();
    proof {
        crate::json::lemma_object_view_literal(m@);
        assert(object_view(m@) =~= Seq::empty());
    }
    push_member(&mut m, "applicable", Json::Bool(false));
    push_member(&mut m, "reason", Json::String(reason.to_owned()));
    let r = object_of(m);
    assert(object_view(m@) =~= seq![("applicable"@, JsonV::Bool(false)), ("reason"@, JsonV::String(reason@))]);
    r
}

/// Compares the two probe counts: a join on a non-unique key multiplies
/// rows (`fanned_out`), one that loses rows drops them (`dropped_rows`);
/// when either probe did not return one count, the check does not apply.
pub fn join_report(joined_result: &Json, base_result: &Json) -> (r: Json)
    ensures
        r@ == spec_join_report(joined_result@, base_result@),
{
    let (joined, base) = match (single_count(joined_result), single_count(base_result)) {
        (Some(j), Some(b)) => (j, b),
        _ => {
            return not_applicable_report(NO_COUNT_REASON);
        },
    };
    let mut m: Vec<(String, Json)> = Vec::new();
    proof {
        crate::json::lemma_object_view_literal(m@);
        assert(object_view(m@) =~= Seq::empty());
    }
    push_member(&mut m, "applicable", Json::Bool(true));
    push_member(&mut m, "joined_rows", crate::json::json_int(joined));
    push_member(&mut m, "base_rows", crate::json::json_int(base));
    push_member(&mut m, "fanned_out", Json::Bool(joined > base));
    push_member(&mut m, "dropped_rows", Json::Bool(joined < base));
    let r = object_of(m);
    assert(object_view(m@) =~= seq![
        ("applicable"@, JsonV::Bool(true)),
        ("joined_rows"@, crate::json::int_json(joined)),
        ("base_rows"@, crate::json::int_json(base)),
        ("fanned_out"@, JsonV::Bool(joined > base)),
        ("dropped_rows"@, JsonV::Bool(joined < base)),
    ]);
    r
}

/// A join check never reports a join as both multiplying and dropping rows.
pub proof fn lemma_join_report_is_one_sided(joined: JsonV, base: JsonV)
    ensures
        !(json_get(spec_join_report(joined, base), "fanned_out"@) == Some(JsonV::Bool(true))
            && json_get(spec_join_report(joined, base), "dropped_rows"@) == Some(
            JsonV::Bool(true),
        )),
{
    reveal_strlit("applicable");
    reveal_strlit("joined_rows");
    reveal_strlit("base_rows");
    reveal_strlit("fanned_out");
    reveal_strlit("dropped_rows");
    reveal_strlit("reason");
    assert("applicable"@.len() == 10);
    assert("joined_rows"@.len() == 11);
    assert("base_rows"@.len() == 9);
    assert("fanned_out"@.len() == 10);
    assert("dropped_rows"@.len() == 12);
    assert("reason"@.len() == 6);
    assert("applicable"@[0] == 'a');
    assert("fanned_out"@[0] == 'f');
    reveal_with_fuel(crate::json::members_get, 6);
}

/// The type label of each column comes from the first row: when the
/// result's `rows` is a non-empty array whose first row is an array of
/// cells, column `i` of the shape is named by `columns[i]` and typed by the
/// kind of cell `i` of that first row, whatever the later rows hold.
pub proof fn lemma_shape_types_come_from_first_row(
    r: JsonV,
    names: Seq<JsonV>,
    rows: Seq<JsonV>,
    cells: Seq<JsonV>,
    i: int,
)
    requires
        json_get(r, "columns"@) == Some(JsonV::Array(names)),
        json_get(r, "rows"@) == Some(JsonV::Array(rows)),
        rows.len() > 0,
        rows[0] == JsonV::Array(cells),
        0 <= i < names.len(),
        i < cells.len(),
    ensures
        ({
            &&& spec_shape_of(r) matches JsonV::Object(m)
            &&& m.len() == 3
            &&& m[2].0 == "columns"@
            &&& m[2].1 matches JsonV::Array(cols)
            &&& cols.len() == names.len()
            &&& cols[i] == JsonV::Object(
                seq![("name"@, names[i]), ("type"@, JsonV::String(value_label(cells[i])))],
            )
        }),
{
}

/// Two results that agree on `columns`, `row_count`, `truncated` and their
/// first row have the same shape: no row after the first can change it.
pub proof fn lemma_shape_ignores_later_rows(r1: JsonV, r2: JsonV, rows1: Seq<JsonV>, rows2: Seq<JsonV>)
    requires
        json_get(r1, "columns"@) == json_get(r2, "columns"@),
        json_get(r1, "row_count"@) == json_get(r2, "row_count"@),
        json_get(r1, "truncated"@) == json_get(r2, "truncated"@),
        json_get(r1, "rows"@) == Some(JsonV::Array(rows1)),
        json_get(r2, "rows"@) == Some(JsonV::Array(rows2)),
        rows1.len() > 0,
        rows2.len() > 0,
        rows1[0] == rows2[0],
    ensures
        spec_shape_of(r1) == spec_shape_of(r2),
{
    assert(first_row_of(r1) == first_row_of(r2));
    let a = match array_member(r1, "columns"@) {
        Some(names) => Seq::new(
            names.len(),
            |i: int| column_shape(names[i], column_type(first_row_of(r1), i)),
        ),
        None => Seq::empty(),
    };
    let b = match array_member(r2, "columns"@) {
        Some(names) => Seq::new(
            names.len(),
            |i: int| column_shape(names[i], column_type(first_row_of(r2), i)),
        ),
        None => Seq::empty(),
    };
    assert(a =~= b);
}

/// Only JSON numbers can be numeric zeros: a boolean, a string, `null`, an
/// array or an object never is, and an integer is one exactly when it is 0.
pub proof fn lemma_only_numbers_are_zero(v: JsonV)
    ensures
        numeric_zero(v) ==> v is Number,
        forall|n: u64| v == JsonV::Number(NumberV::PosInt(n)) ==> (numeric_zero(v) <==> n == 0),
        forall|n: i64| v == JsonV::Number(NumberV::NegInt(n)) ==> (numeric_zero(v) <==> n == 0),
{
}

/// How many of `rows` hold a JSON number at `index`.
pub open spec fn number_cells(rows: Seq<JsonV>, index: int) -> nat
    decreases rows.len(),
{
    if rows.len() == 0 {
        0
    } else {
        number_cells(rows.drop_last(), index) + if cell_of(rows.last(), index) matches Some(
            JsonV::Number(_),
        ) {
            1nat
        } else {
            0nat
        }
    }
}

/// A column's zero count never exceeds how many of its cells are JSON
/// numbers; in particular a column without a number (all booleans,
/// strings or nulls) has no zeros.
pub proof fn lemma_zeros_are_numbers(rows: Seq<JsonV>, index: int)
    ensures
        zero_count(rows, index) <= number_cells(rows, index),
        number_cells(rows, index) == 0 ==> zero_count(rows, index) == 0,
    decreases rows.len(),
{
    if rows.len() > 0 {
        lemma_zeros_are_numbers(rows.drop_last(), index);
        match cell_key(rows.last(), index) {
            Some(v) => lemma_only_numbers_are_zero(v),
            None => {},
        }
    }
}

/// The type label names the JSON kind: `NULL` for null, `BOOLEAN` for a
/// boolean, `INTEGER` for an integer, `REAL` for a float, `TEXT` for a
/// string and `JSON` for an array or an object; and the shape carries the
/// result's `row_count` and `truncated` when they are given.
pub proof fn lemma_shape_labels_and_counts(r: JsonV, v: JsonV, n: u64, b: bool)
    ensures
        v == JsonV::Null ==> value_label(v) == "NULL"@,
        v is Bool ==> value_label(v) == "BOOLEAN"@,
        (v matches JsonV::Number(NumberV::PosInt(_)) || v matches JsonV::Number(NumberV::NegInt(_)))
            ==> value_label(v) == "INTEGER"@,
        v matches JsonV::Number(NumberV::Float(_)) ==> value_label(v) == "REAL"@,
        v is String ==> value_label(v) == "TEXT"@,
        (v is Array || v is Object) ==> value_label(v) == "JSON"@,
        json_get(r, "row_count"@) == Some(JsonV::Number(NumberV::PosInt(n))) ==> (spec_shape_of(
            r,
        ) matches JsonV::Object(m) && m[0] == ("row_count"@, JsonV::Number(NumberV::PosInt(n)))),
        json_get(r, "truncated"@) == Some(JsonV::Bool(b)) ==> (spec_shape_of(r) matches JsonV::Object(
            m,
        ) && m[1] == ("truncated"@, JsonV::Bool(b))),
{
}

/// A column whose every cell is the integer 0 counts every row as a zero
/// and none as null; a column whose every cell is null or missing counts
/// every row as null and none as a zero.
pub proof fn lemma_all_zero_and_all_null_columns(rows: Seq<JsonV>, index: int)
    ensures
        (forall|k: int| 0 <= k < rows.len() ==> #[trigger] cell_of(rows[k], index) == Some(
            JsonV::Number(NumberV::PosInt(0)),
        )) ==> zero_count(rows, index) == rows.len() && null_count(rows, index) == 0,
        (forall|k: int|
            0 <= k < rows.len() ==> #[trigger] cell_of(rows[k], index) is None || cell_of(rows[k], index)
                == Some(JsonV::Null)) ==> null_count(rows, index) == rows.len() && zero_count(
            rows,
            index,
        ) == 0,
    decreases rows.len(),
{
    if rows.len() > 0 {
        lemma_all_zero_and_all_null_columns(rows.drop_last(), index);
        assert forall|k: int| 0 <= k < rows.drop_last().len() implies rows.drop_last()[k] == rows[k] by {}
        assert(rows.last() == rows[rows.len() - 1]);
    }
}

} // verus!
