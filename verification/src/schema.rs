//! The schema as the model sees it: one entry per table, keyed by the name
//! the model should write in SQL, with its columns as `name:type` pairs. The
//! key's depth follows the engine (SQLite parses only the table name, MySQL
//! `database.table`); where that depth cannot tell two tables apart, both
//! keep the full `catalog.schema.table` name.

use vstd::prelude::*;

use crate::json::{object_view, push_member, Json, JsonV};
use crate::system_prompt::{join, join_lines};
use crate::text::push_str;
use crate::tool_error::ToolError;

verus! {

/// Rows returned to the model from a tool call are capped small: the model
/// reasons over a sample and should use aggregate SQL for counts.
pub const MODEL_ROW_CAP: usize = 50;

/// The rows a query tool asks for: the configured maximum, capped for the
/// model.
pub fn model_row_limit(max_rows: usize) -> (r: usize)
    ensures
        r == if max_rows < MODEL_ROW_CAP {
            max_rows
        } else {
            MODEL_ROW_CAP
        },
{
    if max_rows < MODEL_ROW_CAP {
        max_rows
    } else {
        MODEL_ROW_CAP
    }
}

/// One column of a discovered table.
#[derive(Debug, PartialEq)]
pub struct ColumnNode {
    pub name: String,
    pub data_type: String,
}

/// A discovered table.
#[derive(Debug, PartialEq)]
pub struct TableNode {
    pub name: String,
    pub columns: Vec<ColumnNode>,
}

/// A discovered schema namespace.
#[derive(Debug, PartialEq)]
pub struct SchemaNode {
    pub name: String,
    pub tables: Vec<TableNode>,
}

/// A discovered database (catalog).
#[derive(Debug, PartialEq)]
pub struct DatabaseNode {
    pub name: String,
    pub schemas: Vec<SchemaNode>,
}

/// A discovered schema tree: catalog → schema → table → column.
#[derive(Debug, PartialEq)]
pub struct SchemaTree {
    pub databases: Vec<DatabaseNode>,
}

/// A table's columns as `name:type` pairs joined by `, `.
pub open spec fn column_list(t: TableNode) -> Seq<char> {
    join(t.columns@.map_values(|c: ColumnNode| c.name@ + ":"@ + c.data_type@), ", "@)
}

/// The name the engine parses for a table: the table alone, the database
/// and table, or the full three-part name.
pub open spec fn short_name(db: Seq<char>, schema: Seq<char>, table: Seq<char>, parts: u8) -> Seq<char> {
    if parts == 1 {
        table
    } else if parts == 2 {
        db + "."@ + table
    } else {
        db + "."@ + schema + "."@ + table
    }
}

/// One table's (short name, full name, column list).
pub open spec fn table_entry(db: Seq<char>, schema: Seq<char>, t: TableNode, parts: u8) -> (
    Seq<char>,
    Seq<char>,
    Seq<char>,
) {
    (short_name(db, schema, t.name@, parts), db + "."@ + schema + "."@ + t.name@, column_list(t))
}

pub open spec fn tables_entries(db: Seq<char>, schema: Seq<char>, tables: Seq<TableNode>, parts: u8) -> Seq<
    (Seq<char>, Seq<char>, Seq<char>),
> {
    tables.map_values(|t: TableNode| table_entry(db, schema, t, parts))
}

pub open spec fn schemas_entries(db: Seq<char>, schemas: Seq<SchemaNode>, parts: u8) -> Seq<
    (Seq<char>, Seq<char>, Seq<char>),
>
    decreases schemas.len(),
{
    if schemas.len() == 0 {
        Seq::empty()
    } else {
        schemas_entries(db, schemas.drop_last(), parts) + tables_entries(
            db,
            schemas.last().name@,
            schemas.last().tables@,
            parts,
        )
    }
}

/// Every table of the databases, in discovery order.
pub open spec fn databases_entries(dbs: Seq<DatabaseNode>, parts: u8) -> Seq<
    (Seq<char>, Seq<char>, Seq<char>),
>
    decreases dbs.len(),
{
    if dbs.len() == 0 {
        Seq::empty()
    } else {
        databases_entries(dbs.drop_last(), parts) + schemas_entries(
            dbs.last().name@,
            dbs.last().schemas@,
            parts,
        )
    }
}

/// How many entries share the short name `short`.
pub open spec fn short_count(entries: Seq<(Seq<char>, Seq<char>, Seq<char>)>, short: Seq<char>) -> nat
    decreases entries.len(),
{
    if entries.len() == 0 {
        0
    } else {
        short_count(entries.drop_last(), short) + if entries.last().0 == short {
            1nat
        } else {
            0nat
        }
    }
}

/// The key an entry is listed under: its short name, or its full name when
/// the short name is shared.
pub open spec fn entry_key(
    entries: Seq<(Seq<char>, Seq<char>, Seq<char>)>,
    e: (Seq<char>, Seq<char>, Seq<char>),
) -> Seq<char> {
    if short_count(entries, e.0) > 1 {
        e.1
    } else {
        e.0
    }
}

/// The index of the first member named `key`, if any.
pub open spec fn member_index(m: Seq<(Seq<char>, JsonV)>, key: Seq<char>) -> Option<int>
    decreases m.len(),
{
    if m.len() == 0 {
        None
    } else if m[0].0 == key {
        Some(0)
    } else {
        match member_index(m.drop_first(), key) {
            Some(k) => Some(k + 1),
            None => None,
        }
    }
}

/// The first index holding `key` is the member index.
proof fn lemma_member_index(m: Seq<(Seq<char>, JsonV)>, key: Seq<char>, i: int)
    requires
        0 <= i <= m.len(),
        forall|q: int| 0 <= q < i ==> m[q].0 != key,
        i < m.len() ==> m[i].0 == key,
    ensures
        member_index(m, key) == if i < m.len() {
            Some(i)
        } else {
            None::<int>
        },
    decreases m.len(),
{
    if m.len() > 0 && i > 0 {
        lemma_member_index(m.drop_first(), key, i - 1);
    }
}

/// A member index is in bounds and holds the key.
proof fn lemma_member_index_bounds(m: Seq<(Seq<char>, JsonV)>, key: Seq<char>)
    ensures
        member_index(m, key) matches Some(k) ==> 0 <= k < m.len() && m[k].0 == key,
        member_index(m, key) is None ==> forall|q: int| 0 <= q < m.len() ==> m[q].0 != key,
    decreases m.len(),
{
    if m.len() > 0 {
        lemma_member_index_bounds(m.drop_first(), key);
        if member_index(m, key) is None {
            assert forall|q: int| 0 <= q < m.len() implies m[q].0 != key by {
                if q > 0 {
                    assert(m.drop_first()[q - 1] == m[q]);
                }
            }
        }
    }
}

/// A map insert on an object's members: replaces the value of an existing
/// key, else appends the member.
pub open spec fn insert_member(m: Seq<(Seq<char>, JsonV)>, key: Seq<char>, v: JsonV) -> Seq<
    (Seq<char>, JsonV),
> {
    match member_index(m, key) {
        Some(k) => m.update(k, (key, v)),
        None => m.push((key, v)),
    }
}

/// The `tables` map built from the first `n` entries.
pub open spec fn tables_map(entries: Seq<(Seq<char>, Seq<char>, Seq<char>)>, n: nat) -> Seq<
    (Seq<char>, JsonV),
>
    decreases n,
{
    if n == 0 {
        Seq::empty()
    } else {
        let e = entries[n - 1];
        insert_member(tables_map(entries, (n - 1) as nat), entry_key(entries, e), JsonV::String(e.2))
    }
}

/// The compact schema of `schema` for an engine that parses `parts` name
/// parts.
pub open spec fn spec_compact_schema(schema: SchemaTree, parts: u8) -> JsonV {
    let entries = databases_entries(schema.databases@, parts);
    JsonV::Object(seq![("tables"@, JsonV::Object(tables_map(entries, entries.len())))])
}

/// Inserts `key: value` into an object's members, replacing the value of an
/// existing member with that key.
pub fn insert_object_member(m: &mut Vec<(String, Json)>, key: String, value: Json)
    ensures
        object_view(final(m)@) == insert_member(object_view(old(m)@), key@, value@),
{
    let ghost mv = object_view(m@);
    let ghost kv = key@;
    proof {
        crate::json::lemma_object_view_len(m@);
    }
    let mut i: usize = 0;
    while i < m.len()
        invariant
            i <= m.len(),
            m@ == old(m)@,
            mv == object_view(m@),
            mv.len() == m@.len(),
            kv == key@,
            forall|q: int| 0 <= q < i ==> mv[q].0 != kv,
        decreases m.len() - i,
    {
        proof {
            crate::json::lemma_object_view_index(m@, i as int);
        }
        if m[i].0 == key {
            assert(mv[i as int].0 == kv);
            proof {
                lemma_member_index(mv, kv, i as int);
            }
            let ghost vv = value@;
            let ghost before = m@;
            m.set(i, (key, value));
            proof {
                assert forall|q: int| 0 <= q < m@.len() implies object_view(m@)[q] == mv.update(
                    i as int,
                    (kv, vv),
                )[q] by {
                    crate::json::lemma_object_view_index(m@, q);
                    crate::json::lemma_object_view_index(before, q);
                }
                crate::json::lemma_object_view_len(m@);
                assert(object_view(m@) =~= mv.update(i as int, (kv, vv)));
            }
            return;
        }
        i += 1;
    }
    proof {
        lemma_member_index(mv, kv, m@.len() as int);
        crate::json::lemma_object_view_push(m@, key, value);
    }
    m.push((key, value));
}

/// The views of the entries.
pub open spec fn entries_view(v: Seq<(String, String, String)>) -> Seq<(Seq<char>, Seq<char>, Seq<char>)> {
    v.map_values(|e: (String, String, String)| (e.0@, e.1@, e.2@))
}

fn column_list_of(t: &TableNode) -> (r: String)
    ensures
        r@ == column_list(*t),
{
    let ghost cv = t.columns@.map_values(|c: ColumnNode| c.name@ + ":"@ + c.data_type@);
    let mut parts: Vec<String> = Vec::new();
    let mut i: usize = 0;
    while i < t.columns.len()
        invariant
            i <= t.columns.len(),
            cv == t.columns@.map_values(|c: ColumnNode| c.name@ + ":"@ + c.data_type@),
            parts@.map_values(|p: String| p@) =~= cv.take(i as int),
        decreases t.columns.len() - i,
    {
        let mut part = t.columns[i].name.clone();
        push_str(&mut part, ":");
        push_str(&mut part, t.columns[i].data_type.as_str());
        let ghost before = parts@;
        parts.push(part);
        assert(parts@.map_values(|p: String| p@) =~= before.map_values(|p: String| p@).push(
            cv[i as int],
        ));
        assert(cv.take(i as int + 1) =~= cv.take(i as int).push(cv[i as int]));
        i += 1;
    }
    assert(cv.take(t.columns.len() as int) =~= cv);
    join_lines(parts.as_slice(), ", ")
}

fn dotted(a: &str, b: &str) -> (r: String)
    ensures
        r@ == a@ + "."@ + b@,
{
    let mut r = a.to_owned();
    push_str(&mut r, ".");
    push_str(&mut r, b);
    r
}

/// Every table's (short name, full name, column list), in discovery order.
fn collect_entries(schema: &SchemaTree, parts: u8) -> (r: Vec<(String, String, String)>)
    ensures
        entries_view(r@) == databases_entries(schema.databases@, parts),
{
    let mut entries: Vec<(String, String, String)> = Vec::new();
    let mut d: usize = 0;
    while d < schema.databases.len()
        invariant
            d <= schema.databases.len(),
            entries_view(entries@) =~= databases_entries(schema.databases@.take(d as int), parts),
        decreases schema.databases.len() - d,
    {
        let db = &schema.databases[d];
        let ghost base = entries_view(entries@);
        let mut s: usize = 0;
        while s < db.schemas.len()
            invariant
                s <= db.schemas.len(),
                entries_view(entries@) =~= base + schemas_entries(
                    db.name@,
                    db.schemas@.take(s as int),
                    parts,
                ),
            decreases db.schemas.len() - s,
        {
            let ns = &db.schemas[s];
            let ghost mid = entries_view(entries@);
            let mut t: usize = 0;
            while t < ns.tables.len()
                invariant
                    t <= ns.tables.len(),
                    entries_view(entries@) =~= mid + tables_entries(
                        db.name@,
                        ns.name@,
                        ns.tables@.take(t as int),
                        parts,
                    ),
                decreases ns.tables.len() - t,
            {
                let table = &ns.tables[t];
                let columns = column_list_of(table);
                let full = dotted(dotted(db.name.as_str(), ns.name.as_str()).as_str(), table.name.as_str());
                let short = if parts == 1 {
                    table.name.clone()
                } else if parts == 2 {
                    dotted(db.name.as_str(), table.name.as_str())
                } else {
                    dotted(dotted(db.name.as_str(), ns.name.as_str()).as_str(), table.name.as_str())
                };
                let ghost before = entries@;
                entries.push((short, full, columns));
                assert(entries_view(entries@) =~= entries_view(before).push(
                    table_entry(db.name@, ns.name@, *table, parts),
                ));
                assert(ns.tables@.take(t as int + 1) =~= ns.tables@.take(t as int).push(*table));
                assert(tables_entries(db.name@, ns.name@, ns.tables@.take(t as int + 1), parts)
                    =~= tables_entries(db.name@, ns.name@, ns.tables@.take(t as int), parts).push(
                    table_entry(db.name@, ns.name@, *table, parts),
                ));
                t += 1;
            }
            assert(ns.tables@.take(ns.tables.len() as int) =~= ns.tables@);
            assert(db.schemas@.take(s as int + 1).drop_last() =~= db.schemas@.take(s as int));
            assert(db.schemas@.take(s as int + 1).last() == *ns);
            s += 1;
        }
        assert(db.schemas@.take(db.schemas.len() as int) =~= db.schemas@);
        assert(schema.databases@.take(d as int + 1).drop_last() =~= schema.databases@.take(d as int));
        assert(schema.databases@.take(d as int + 1).last() == *db);
        d += 1;
    }
    assert(schema.databases@.take(schema.databases.len() as int) =~= schema.databases@);
    entries
}

fn count_short(entries: &Vec<(String, String, String)>, short: &String) -> (n: usize)
    ensures
        n == short_count(entries_view(entries@), short@),
{
    let ghost ev = entries_view(entries@);
    let mut n: usize = 0;
    let mut i: usize = 0;
    while i < entries.len()
        invariant
            i <= entries.len(),
            ev == entries_view(entries@),
            n == short_count(ev.take(i as int), short@),
            n <= i,
        decreases entries.len() - i,
    {
        assert(ev.take(i as int + 1).drop_last() =~= ev.take(i as int));
        assert(ev.take(i as int + 1).last() == ev[i as int]);
        if entries[i].0 == *short {
            n = n + 1;
        }
        i += 1;
    }
    assert(ev.take(entries.len() as int) =~= ev);
    n
}

/// Flattens a schema into a compact `{ "tables": { key: "col:type, ..." } }`
/// map, far smaller than the full tree. `parts` is how many name parts the
/// engine parses (1: the table, 2: database and table, else all three).
pub fn compact_schema(schema: &SchemaTree, parts: u8) -> (r: Json)
    ensures
        r@ == spec_compact_schema(*schema, parts),
{
    let entries = collect_entries(schema, parts);
    let ghost ev = entries_view(entries@);
    let mut tables: Vec<(String, Json)> = Vec::new();
    proof {
        crate::json::lemma_object_view_literal(tables@);
        assert(object_view(tables@) =~= Seq::empty());
    }
    let mut i: usize = 0;
    while i < entries.len()
        invariant
            i <= entries.len(),
            ev == entries_view(entries@),
            object_view(tables@) == tables_map(ev, i as nat),
        decreases entries.len() - i,
    {
        let ambiguous = count_short(&entries, &entries[i].0) > 1;
        let key = if ambiguous {
            entries[i].1.clone()
        } else {
            entries[i].0.clone()
        };
        assert(key@ == entry_key(ev, ev[i as int]));
        insert_object_member(&mut tables, key, Json::String(entries[i].2.clone()));
        i += 1;
    }
    let mut m: Vec<(String, Json)> = Vec::new();
    proof {
        crate::json::lemma_object_view_literal(m@);
        assert(object_view(m@) =~= Seq::empty());
    }
    let ghost tv = object_view(tables@);
    push_member(&mut m, "tables", Json::Object(tables));
    let r = Json::Object(m);
    assert(object_view(m@) =~= seq![("tables"@, JsonV::Object(tv))]);
    r
}

/// The diagnostic a schema served from the cache carries.
pub open spec fn cache_diagnostic(live_error: Seq<char>) -> Seq<char> {
    "using cached schema because live refresh failed: "@ + live_error
}

/// How a schema refresh is audited.
#[derive(PartialEq, Eq, Structural, Clone, Copy, Debug)]
pub enum AuditStatus {
    Success,
    Cached,
    Failure,
}

/// What the schema tool answers when live discovery failed with
/// `live_error`: the cached schema when one is stored (compacted, with a
/// diagnostic naming the live failure, audited as cached), else the live
/// failure (audited as a failure). `None` for `cached` means the store held
/// no schema for the profile or could not be read.
pub fn cached_schema_answer(live_error: &str, cached: Option<&SchemaTree>, parts: u8) -> (r: (
    Result<Json, ToolError>,
    AuditStatus,
))
    ensures
        match cached {
            Some(tree) => r.1 == AuditStatus::Cached && (r.0 matches Ok(v) && ({
                let c = spec_compact_schema(*tree, parts);
                c matches JsonV::Object(members) && v@ == JsonV::Object(
                    insert_member(members, "diagnostic"@, JsonV::String(cache_diagnostic(live_error@))),
                )
            })),
            None => r.1 == AuditStatus::Failure && (r.0 matches Err(
                ToolError::SchemaDiscoveryFailed(e),
            ) && e@ == live_error@),
        },
{
    match cached {
        Some(tree) => {
            let value = compact_schema(tree, parts);
            let mut members = match value {
                Json::Object(m) => m,
                _ => {
                    assert(false);
                    Vec::new()
                },
            };
            let mut diagnostic = "using cached schema because live refresh failed: ".to_owned();
            push_str(&mut diagnostic, live_error);
            insert_object_member(&mut members, "diagnostic".to_owned(), Json::String(diagnostic));
            (Ok(Json::Object(members)), AuditStatus::Cached)
        },
        None => (Err(ToolError::SchemaDiscoveryFailed(live_error.to_owned())), AuditStatus::Failure),
    }
}

/// A map insert keeps every key it had and adds the inserted one.
proof fn lemma_insert_member_keys(m: Seq<(Seq<char>, JsonV)>, key: Seq<char>, v: JsonV)
    ensures
        exists|k: int| 0 <= k < insert_member(m, key, v).len() && insert_member(m, key, v)[k].0 == key,
        forall|q: int|
            0 <= q < m.len() ==> exists|k: int|
                0 <= k < insert_member(m, key, v).len() && #[trigger] insert_member(m, key, v)[k].0
                    == (#[trigger] m[q]).0,
{
    let r = insert_member(m, key, v);
    lemma_member_index_bounds(m, key);
    match member_index(m, key) {
        Some(i) => {
            assert(r[i].0 == key);
            assert forall|q: int| 0 <= q < m.len() implies exists|k: int|
                0 <= k < r.len() && #[trigger] r[k].0 == (#[trigger] m[q]).0 by {
                assert(r[q].0 == m[q].0);
            }
        },
        None => {
            assert(r[m.len() as int].0 == key);
            assert forall|q: int| 0 <= q < m.len() implies exists|k: int|
                0 <= k < r.len() && #[trigger] r[k].0 == (#[trigger] m[q]).0 by {
                assert(r[q] == m[q]);
            }
        },
    }
}

/// An entry at `i` counts toward its own short name.
proof fn lemma_short_count_at_least_one(entries: Seq<(Seq<char>, Seq<char>, Seq<char>)>, i: int)
    requires
        0 <= i < entries.len(),
    ensures
        short_count(entries, entries[i].0) >= 1,
    decreases entries.len(),
{
    if i < entries.len() - 1 {
        lemma_short_count_at_least_one(entries.drop_last(), i);
        assert(entries.drop_last()[i] == entries[i]);
    }
}

/// Two entries sharing a short name make it counted at least twice.
proof fn lemma_short_count_at_least_two(
    entries: Seq<(Seq<char>, Seq<char>, Seq<char>)>,
    i: int,
    j: int,
)
    requires
        0 <= i < j < entries.len(),
        entries[i].0 == entries[j].0,
    ensures
        short_count(entries, entries[i].0) >= 2,
    decreases entries.len(),
{
    let d = entries.drop_last();
    assert(d[i] == entries[i]);
    if j == entries.len() - 1 {
        lemma_short_count_at_least_one(d, i);
    } else {
        assert(d[j] == entries[j]);
        lemma_short_count_at_least_two(d, i, j);
    }
}

/// Tables whose short names collide are never listed under that shared
/// name: each of them is keyed by its full `catalog.schema.table` name.
pub proof fn lemma_shared_short_names_are_qualified(schema: SchemaTree, parts: u8, i: int, j: int)
    requires
        0 <= i < databases_entries(schema.databases@, parts).len(),
        0 <= j < databases_entries(schema.databases@, parts).len(),
        i != j,
        databases_entries(schema.databases@, parts)[i].0 == databases_entries(
            schema.databases@,
            parts,
        )[j].0,
    ensures
        entry_key(
            databases_entries(schema.databases@, parts),
            databases_entries(schema.databases@, parts)[i],
        ) == databases_entries(schema.databases@, parts)[i].1,
{
    let entries = databases_entries(schema.databases@, parts);
    if i < j {
        lemma_short_count_at_least_two(entries, i, j);
    } else {
        lemma_short_count_at_least_two(entries, j, i);
    }
}

/// The `tables` map built from the first `n` entries holds the key of each
/// of them.
proof fn lemma_tables_map_lists(
    entries: Seq<(Seq<char>, Seq<char>, Seq<char>)>,
    n: nat,
    i: int,
)
    requires
        0 <= i < n <= entries.len(),
    ensures
        exists|k: int|
            0 <= k < tables_map(entries, n).len() && tables_map(entries, n)[k].0 == entry_key(
                entries,
                entries[i],
            ),
    decreases n,
{
    let e = entries[n - 1];
    let prev = tables_map(entries, (n - 1) as nat);
    let r = insert_member(prev, entry_key(entries, e), JsonV::String(e.2));
    assert(tables_map(entries, n) == r);
    lemma_insert_member_keys(prev, entry_key(entries, e), JsonV::String(e.2));
    if i < n - 1 {
        lemma_tables_map_lists(entries, (n - 1) as nat, i);
        let q = choose|q: int| 0 <= q < prev.len() && prev[q].0 == entry_key(entries, entries[i]);
        let pq = prev[q];
        assert(pq.0 == entry_key(entries, entries[i]));
        let k = choose|k: int| 0 <= k < r.len() && #[trigger] r[k].0 == pq.0;
        assert(r[k].0 == entry_key(entries, entries[i]));
    } else {
        let k = choose|k: int| 0 <= k < r.len() && r[k].0 == entry_key(entries, e);
        assert(r[k].0 == entry_key(entries, entries[i]));
    }
}

/// No table goes missing from the compact schema: every discovered table's
/// key (its short name, or its full name when the short one is shared) is
/// a member of the `tables` map.
pub proof fn lemma_every_table_is_listed(schema: SchemaTree, parts: u8, i: int)
    requires
        0 <= i < databases_entries(schema.databases@, parts).len(),
    ensures
        ({
            let entries = databases_entries(schema.databases@, parts);
            let tables = tables_map(entries, entries.len());
            &&& spec_compact_schema(schema, parts) == JsonV::Object(
                seq![("tables"@, JsonV::Object(tables))],
            )
            &&& exists|k: int| 0 <= k < tables.len() && tables[k].0 == entry_key(entries, entries[i])
        }),
{
    let entries = databases_entries(schema.databases@, parts);
    lemma_tables_map_lists(entries, entries.len(), i);
}

proof fn lemma_schema_table_index(db: Seq<char>, schemas: Seq<SchemaNode>, parts: u8, s: int, t: int)
    requires
        0 <= s < schemas.len(),
        0 <= t < schemas[s].tables@.len(),
    ensures
        exists|i: int|
            0 <= i < schemas_entries(db, schemas, parts).len() && #[trigger] schemas_entries(
                db,
                schemas,
                parts,
            )[i] == table_entry(db, schemas[s].name@, schemas[s].tables@[t], parts),
    decreases schemas.len(),
{
    let pre = schemas_entries(db, schemas.drop_last(), parts);
    let all = schemas_entries(db, schemas, parts);
    if s == schemas.len() - 1 {
        let i = pre.len() + t;
        assert(all[i] == table_entry(db, schemas[s].name@, schemas[s].tables@[t], parts));
    } else {
        lemma_schema_table_index(db, schemas.drop_last(), parts, s, t);
        let i = choose|i: int|
            0 <= i < pre.len() && #[trigger] pre[i] == table_entry(
                db,
                schemas.drop_last()[s].name@,
                schemas.drop_last()[s].tables@[t],
                parts,
            );
        assert(all[i] == pre[i]);
    }
}

proof fn lemma_database_table_index(dbs: Seq<DatabaseNode>, parts: u8, d: int, s: int, t: int)
    requires
        0 <= d < dbs.len(),
        0 <= s < dbs[d].schemas@.len(),
        0 <= t < dbs[d].schemas@[s].tables@.len(),
    ensures
        exists|i: int|
            0 <= i < databases_entries(dbs, parts).len() && #[trigger] databases_entries(dbs, parts)[i]
                == table_entry(
                dbs[d].name@,
                dbs[d].schemas@[s].name@,
                dbs[d].schemas@[s].tables@[t],
                parts,
            ),
    decreases dbs.len(),
{
    let pre = databases_entries(dbs.drop_last(), parts);
    let all = databases_entries(dbs, parts);
    let e = table_entry(dbs[d].name@, dbs[d].schemas@[s].name@, dbs[d].schemas@[s].tables@[t], parts);
    if d == dbs.len() - 1 {
        lemma_schema_table_index(dbs[d].name@, dbs[d].schemas@, parts, s, t);
        let sch = schemas_entries(dbs[d].name@, dbs[d].schemas@, parts);
        let j = choose|j: int| 0 <= j < sch.len() && #[trigger] sch[j] == e;
        assert(all[pre.len() + j] == e);
    } else {
        lemma_database_table_index(dbs.drop_last(), parts, d, s, t);
        assert(dbs.drop_last()[d] == dbs[d]);
        let i = choose|i: int| 0 <= i < pre.len() && #[trigger] pre[i] == e;
        assert(all[i] == e);
    }
}

/// Member `k` of `m` is the table `db.sch.tbl`, under its short name or
/// its full name.
pub open spec fn listed_at(
    m: Seq<(Seq<char>, JsonV)>,
    k: int,
    db: Seq<char>,
    sch: Seq<char>,
    tbl: Seq<char>,
    parts: u8,
) -> bool {
    0 <= k < m.len() && (m[k].0 == short_name(db, sch, tbl, parts) || m[k].0 == db + "."@ + sch
        + "."@ + tbl)
}

/// The compact map `j` lists the table `db.sch.tbl` under its short name or
/// its full name.
pub open spec fn lists_table(j: JsonV, db: Seq<char>, sch: Seq<char>, tbl: Seq<char>, parts: u8) -> bool {
    exists|m: Seq<(Seq<char>, JsonV)>, k: int|
        j == JsonV::Object(seq![("tables"@, JsonV::Object(m))]) && #[trigger] listed_at(
            m,
            k,
            db,
            sch,
            tbl,
            parts,
        )
}

/// Every table of every schema of every database in the tree is listed in
/// the compact map, under its short name or, when that is shared, under its
/// full `database.schema.table` name.
pub proof fn lemma_every_table_node_is_listed(schema: SchemaTree, parts: u8, d: int, s: int, t: int)
    requires
        0 <= d < schema.databases@.len(),
        0 <= s < schema.databases@[d].schemas@.len(),
        0 <= t < schema.databases@[d].schemas@[s].tables@.len(),
    ensures
        lists_table(
            spec_compact_schema(schema, parts),
            schema.databases@[d].name@,
            schema.databases@[d].schemas@[s].name@,
            schema.databases@[d].schemas@[s].tables@[t].name@,
            parts,
        ),
{
    let dbs = schema.databases@;
    let db = dbs[d].name@;
    let sch = dbs[d].schemas@[s].name@;
    let tbl = dbs[d].schemas@[s].tables@[t].name@;
    let e = table_entry(db, sch, dbs[d].schemas@[s].tables@[t], parts);
    lemma_database_table_index(dbs, parts, d, s, t);
    let entries = databases_entries(dbs, parts);
    let i = choose|i: int| 0 <= i < entries.len() && #[trigger] entries[i] == e;
    lemma_every_table_is_listed(schema, parts, i);
    let m = tables_map(entries, entries.len());
    let k = choose|k: int| 0 <= k < m.len() && m[k].0 == entry_key(entries, entries[i]);
    assert(m[k].0 == short_name(db, sch, tbl, parts) || m[k].0 == db + "."@ + sch + "."@ + tbl);
    let top = seq![("tables"@, JsonV::Object(m))];
    assert(top[0] == ("tables"@, JsonV::Object(m)));
    assert(top.len() == 1);
    assert(listed_at(m, k, db, sch, tbl, parts));
    assert(spec_compact_schema(schema, parts) == JsonV::Object(top));
}

} // verus!
