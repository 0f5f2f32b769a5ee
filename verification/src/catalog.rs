//! Catalog statements and their results: the SQL text that lists the
//! databases, schemas, tables, columns, triggers and indexes of a server, and
//! the records read from the rows that come back.
//!
//! Names given by the caller are put into the SQL text as they are.

use crate::models::{
    PostgreColumn, PostgreDatabase, PostgreIndex, PostgreSchema, PostgreTable, PostgreTrigger,
};
use crate::rows::{lookup_text, rows_view, NormalizedRow, RowView};
use crate::text::{i32_of, parse_i32, same_text, split, split_on, texts, trim, trimmed};
use vstd::prelude::*;
use vstd::string::StringExecFns;

verus! {

/// The rows that meet a condition, in their order.
pub open spec fn kept(rows: Seq<RowView>, keep: spec_fn(RowView) -> bool) -> Seq<RowView>
    decreases rows.len(),
{
    if rows.len() == 0 {
        Seq::empty()
    } else if keep(rows.last()) {
        kept(rows.drop_last(), keep).push(rows.last())
    } else {
        kept(rows.drop_last(), keep)
    }
}

proof fn lemma_kept_next(rows: Seq<RowView>, keep: spec_fn(RowView) -> bool, i: int)
    requires
        0 <= i < rows.len(),
    ensures
        keep(rows[i]) ==> kept(rows.take(i + 1), keep) == kept(rows.take(i), keep).push(rows[i]),
        !keep(rows[i]) ==> kept(rows.take(i + 1), keep) == kept(rows.take(i), keep),
{
    assert(rows.take(i + 1).drop_last() =~= rows.take(i));
    assert(rows.take(i + 1).last() == rows[i]);
}

fn quoted(mut sql: String, name: &str, then: &str) -> (out: String)
    ensures
        out@ == sql@ + name@ + then@,
{
    sql.append(name);
    sql.append(then);
    sql
}

/// The statement that lists the databases of a server, templates left out.
pub fn databases_query() -> (sql: String)
    ensures
        sql@ == "SELECT * FROM pg_database WHERE datistemplate = false"@,
{
    "SELECT * FROM pg_database WHERE datistemplate = false".to_owned()
}

/// Whether a record is what a row says of a database.
pub open spec fn database_of(database: PostgreDatabase, row: RowView) -> bool {
    lookup_text(row, "datname"@) == Some(database.datname@)
}

/// The rows that name a database.
pub open spec fn database_rows(rows: Seq<RowView>) -> Seq<RowView> {
    kept(rows, |row: RowView| lookup_text(row, "datname"@).is_some())
}

/// Reads the databases from the rows of `databases_query`. A row without the
/// column `datname` is left out.
pub fn databases_from_rows(rows: &Vec<NormalizedRow>) -> (databases: Vec<PostgreDatabase>)
    ensures
        databases@.len() == database_rows(rows_view(rows@)).len(),
        forall|i: int|
            0 <= i < databases@.len() ==> database_of(
                #[trigger] databases@[i],
                database_rows(rows_view(rows@))[i],
            ),
{
    let ghost all = rows_view(rows@);
    let ghost keep = |row: RowView| lookup_text(row, "datname"@).is_some();
    let mut databases: Vec<PostgreDatabase> = Vec::new();
    let mut r: usize = 0;
    while r < rows.len()
        invariant
            r <= rows@.len(),
            all == rows_view(rows@),
            keep == |row: RowView| lookup_text(row, "datname"@).is_some(),
            databases@.len() == kept(all.take(r as int), keep).len(),
            forall|i: int|
                0 <= i < databases@.len() ==> database_of(
                    #[trigger] databases@[i],
                    kept(all.take(r as int), keep)[i],
                ),
        decreases rows@.len() - r,
    {
        proof {
            lemma_kept_next(all, keep, r as int);
        }
        match rows[r].text("datname") {
            Some(datname) => {
                databases.push(PostgreDatabase { datname });
            },
            None => {},
        }
        r = r + 1;
    }
    assert(all.take(r as int) =~= all);
    databases
}

/// The statement that lists the schemas of a database, the system's own left
/// out.
pub fn schemas_query() -> (sql: String)
    ensures
        sql@
            == "SELECT schema_name FROM information_schema.schemata WHERE schema_name NOT IN ('pg_toast', 'pg_catalog', 'information_schema')"@,
{
    "SELECT schema_name FROM information_schema.schemata WHERE schema_name NOT IN ('pg_toast', 'pg_catalog', 'information_schema')".to_owned()
}

/// Whether a record is what a row says of a schema.
pub open spec fn schema_of(schema: PostgreSchema, row: RowView) -> bool {
    lookup_text(row, "schema_name"@) == Some(schema.name@)
}

/// The rows that name a schema.
pub open spec fn schema_rows(rows: Seq<RowView>) -> Seq<RowView> {
    kept(rows, |row: RowView| lookup_text(row, "schema_name"@).is_some())
}

/// Reads the schemas from the rows of `schemas_query`. A row without the
/// column `schema_name` is left out.
pub fn schemas_from_rows(rows: &Vec<NormalizedRow>) -> (schemas: Vec<PostgreSchema>)
    ensures
        schemas@.len() == schema_rows(rows_view(rows@)).len(),
        forall|i: int|
            0 <= i < schemas@.len() ==> schema_of(
                #[trigger] schemas@[i],
                schema_rows(rows_view(rows@))[i],
            ),
{
    let ghost all = rows_view(rows@);
    let ghost keep = |row: RowView| lookup_text(row, "schema_name"@).is_some();
    let mut schemas: Vec<PostgreSchema> = Vec::new();
    let mut r: usize = 0;
    while r < rows.len()
        invariant
            r <= rows@.len(),
            all == rows_view(rows@),
            keep == |row: RowView| lookup_text(row, "schema_name"@).is_some(),
            schemas@.len() == kept(all.take(r as int), keep).len(),
            forall|i: int|
                0 <= i < schemas@.len() ==> schema_of(
                    #[trigger] schemas@[i],
                    kept(all.take(r as int), keep)[i],
                ),
        decreases rows@.len() - r,
    {
        proof {
            lemma_kept_next(all, keep, r as int);
        }
        match rows[r].text("schema_name") {
            Some(name) => {
                schemas.push(PostgreSchema { name });
            },
            None => {},
        }
        r = r + 1;
    }
    assert(all.take(r as int) =~= all);
    schemas
}

/// The text of the statement that lists the tables of a schema.
pub open spec fn tables_sql(schema_name: Seq<char>) -> Seq<char> {
    "SELECT table_name, table_schema, table_type FROM information_schema.tables WHERE table_schema = '"@
        + schema_name + "' ORDER BY table_name"@
}

/// The statement that lists the tables of a schema, by name.
pub fn tables_query(schema_name: &str) -> (sql: String)
    ensures
        sql@ == tables_sql(schema_name@),
{
    quoted(
        "SELECT table_name, table_schema, table_type FROM information_schema.tables WHERE table_schema = '".to_owned(),
        schema_name,
        "' ORDER BY table_name",
    )
}

/// Whether a row has all that a table record needs.
pub open spec fn has_table(row: RowView) -> bool {
    &&& lookup_text(row, "table_name"@).is_some()
    &&& lookup_text(row, "table_schema"@).is_some()
    &&& lookup_text(row, "table_type"@).is_some()
}

/// Whether a record is what a row says of a table.
pub open spec fn table_of(table: PostgreTable, row: RowView) -> bool {
    &&& lookup_text(row, "table_name"@) == Some(table.name@)
    &&& lookup_text(row, "table_schema"@) == Some(table.schema@)
    &&& lookup_text(row, "table_type"@) == Some(table.table_type@)
}

/// The rows that describe a table.
pub open spec fn table_rows(rows: Seq<RowView>) -> Seq<RowView> {
    kept(rows, |row: RowView| has_table(row))
}

/// Reads the tables from the rows of `tables_query`. A row that lacks one of
/// the three columns is left out.
pub fn tables_from_rows(rows: &Vec<NormalizedRow>) -> (tables: Vec<PostgreTable>)
    ensures
        tables@.len() == table_rows(rows_view(rows@)).len(),
        forall|i: int|
            0 <= i < tables@.len() ==> table_of(
                #[trigger] tables@[i],
                table_rows(rows_view(rows@))[i],
            ),
{
    let ghost all = rows_view(rows@);
    let ghost keep = |row: RowView| has_table(row);
    let mut tables: Vec<PostgreTable> = Vec::new();
    let mut r: usize = 0;
    while r < rows.len()
        invariant
            r <= rows@.len(),
            all == rows_view(rows@),
            keep == |row: RowView| has_table(row),
            tables@.len() == kept(all.take(r as int), keep).len(),
            forall|i: int|
                0 <= i < tables@.len() ==> table_of(
                    #[trigger] tables@[i],
                    kept(all.take(r as int), keep)[i],
                ),
        decreases rows@.len() - r,
    {
        proof {
            lemma_kept_next(all, keep, r as int);
        }
        let row = &rows[r];
        match (row.text("table_name"), row.text("table_schema"), row.text("table_type")) {
            (Some(name), Some(schema), Some(table_type)) => {
                tables.push(PostgreTable { name, schema, table_type });
            },
            _ => {},
        }
        r = r + 1;
    }
    assert(all.take(r as int) =~= all);
    tables
}

/// The text of the statement that lists the columns of a table.
pub open spec fn columns_sql(schema_name: Seq<char>, table_name: Seq<char>) -> Seq<char> {
    "SELECT column_name, ordinal_position, data_type, is_nullable, column_default FROM information_schema.columns WHERE table_schema = '"@
        + schema_name + "' AND table_name = '"@ + table_name + "' ORDER BY ordinal_position"@
}

/// The statement that lists the columns of a table, by position.
pub fn columns_query(schema_name: &str, table_name: &str) -> (sql: String)
    ensures
        sql@ == columns_sql(schema_name@, table_name@),
{
    let sql = quoted(
        "SELECT column_name, ordinal_position, data_type, is_nullable, column_default FROM information_schema.columns WHERE table_schema = '".to_owned(),
        schema_name,
        "' AND table_name = '",
    );
    quoted(sql, table_name, "' ORDER BY ordinal_position")
}

/// Whether a row has all that a column record needs.
pub open spec fn has_column(row: RowView) -> bool {
    &&& lookup_text(row, "is_nullable"@).is_some()
    &&& lookup_text(row, "column_name"@).is_some()
    &&& lookup_text(row, "ordinal_position"@).is_some()
    &&& lookup_text(row, "data_type"@).is_some()
}

/// The position that a text gives: the 32-bit integer it denotes, or 0.
pub open spec fn position_of(text: Seq<char>) -> i32 {
    match i32_of(text) {
        Some(position) => position,
        None => 0,
    }
}

/// Whether a record is what a row says of a column. The column can be null
/// where the row says `YES`; the default is present where the row has the
/// column `column_default`.
pub open spec fn column_of(column: PostgreColumn, row: RowView) -> bool {
    &&& lookup_text(row, "column_name"@) == Some(column.name@)
    &&& lookup_text(row, "ordinal_position"@).is_some()
    &&& column.ordinal_position == position_of(lookup_text(row, "ordinal_position"@)->Some_0)
    &&& lookup_text(row, "data_type"@) == Some(column.data_type@)
    &&& column.is_nullable == (lookup_text(row, "is_nullable"@) == Some("YES"@))
    &&& match column.column_default {
        Some(default) => lookup_text(row, "column_default"@) == Some(default@),
        None => lookup_text(row, "column_default"@).is_none(),
    }
}

/// The rows that describe a column.
pub open spec fn column_rows(rows: Seq<RowView>) -> Seq<RowView> {
    kept(rows, |row: RowView| has_column(row))
}

/// Reads the columns from the rows of `columns_query`. A row that lacks the
/// name, the position, the type or the nullability is left out.
pub fn columns_from_rows(rows: &Vec<NormalizedRow>) -> (columns: Vec<PostgreColumn>)
    ensures
        columns@.len() == column_rows(rows_view(rows@)).len(),
        forall|i: int|
            0 <= i < columns@.len() ==> column_of(
                #[trigger] columns@[i],
                column_rows(rows_view(rows@))[i],
            ),
{
    let ghost all = rows_view(rows@);
    let ghost keep = |row: RowView| has_column(row);
    let mut columns: Vec<PostgreColumn> = Vec::new();
    let mut r: usize = 0;
    while r < rows.len()
        invariant
            r <= rows@.len(),
            all == rows_view(rows@),
            keep == |row: RowView| has_column(row),
            columns@.len() == kept(all.take(r as int), keep).len(),
            forall|i: int|
                0 <= i < columns@.len() ==> column_of(
                    #[trigger] columns@[i],
                    kept(all.take(r as int), keep)[i],
                ),
        decreases rows@.len() - r,
    {
        proof {
            lemma_kept_next(all, keep, r as int);
        }
        let row = &rows[r];
        match (
            row.text("is_nullable"),
            row.text("column_name"),
            row.text("ordinal_position"),
            row.text("data_type"),
        ) {
            (Some(nullable), Some(name), Some(position), Some(data_type)) => {
                let ordinal_position = match parse_i32(position.as_str()) {
                    Some(value) => value,
                    None => 0,
                };
                columns.push(
                    PostgreColumn {
                        name,
                        ordinal_position,
                        data_type,
                        is_nullable: same_text(nullable.as_str(), "YES"),
                        column_default: row.text("column_default"),
                    },
                );
            },
            _ => {},
        }
        r = r + 1;
    }
    assert(all.take(r as int) =~= all);
    columns
}

/// The text of the statement that lists the triggers of a table.
pub open spec fn triggers_sql(schema_name: Seq<char>, table_name: Seq<char>) -> Seq<char> {
    "SELECT trigger_name, action_timing, event_manipulation, action_statement FROM information_schema.triggers WHERE event_object_schema = '"@
        + schema_name + "' AND event_object_table = '"@ + table_name + "' ORDER BY trigger_name"@
}

/// The statement that lists the triggers of a table, by name.
pub fn triggers_query(schema_name: &str, table_name: &str) -> (sql: String)
    ensures
        sql@ == triggers_sql(schema_name@, table_name@),
{
    let sql = quoted(
        "SELECT trigger_name, action_timing, event_manipulation, action_statement FROM information_schema.triggers WHERE event_object_schema = '".to_owned(),
        schema_name,
        "' AND event_object_table = '",
    );
    quoted(sql, table_name, "' ORDER BY trigger_name")
}

/// The events in a list that separates them by commas, each without the
/// white space around it.
pub open spec fn events_of(list: Seq<char>) -> Seq<Seq<char>> {
    Seq::new(split(list, ',').len(), |i: int| trimmed(split(list, ',')[i]))
}

/// Reads the events of a trigger from a comma-separated list.
pub fn trigger_events(list: &str) -> (events: Vec<String>)
    ensures
        texts(events@) == events_of(list@),
{
    let pieces = split_on(list, ',');
    let mut events: Vec<String> = Vec::new();
    let mut i: usize = 0;
    while i < pieces.len()
        invariant
            i <= pieces@.len(),
            texts(pieces@) == split(list@, ','),
            events@.len() == i,
            forall|k: int| 0 <= k < i ==> (#[trigger] events@[k])@ == trimmed(pieces@[k]@),
        decreases pieces@.len() - i,
    {
        events.push(trim(pieces[i].as_str()));
        i = i + 1;
    }
    proof {
        assert forall|k: int| 0 <= k < events@.len() implies texts(events@)[k] == events_of(
            list@,
        )[k] by {
            assert(texts(pieces@)[k] == pieces@[k]@);
        }
        assert(texts(pieces@).len() == pieces@.len());
        assert(texts(events@) =~= events_of(list@));
    }
    events
}

/// Whether a row has all that a trigger record needs.
pub open spec fn has_trigger(row: RowView) -> bool {
    &&& lookup_text(row, "event_manipulation"@).is_some()
    &&& lookup_text(row, "trigger_name"@).is_some()
    &&& lookup_text(row, "action_timing"@).is_some()
    &&& lookup_text(row, "action_statement"@).is_some()
}

/// Whether a record is what a row says of a trigger of the given table.
pub open spec fn trigger_of(
    trigger: PostgreTrigger,
    row: RowView,
    schema_name: Seq<char>,
    table_name: Seq<char>,
) -> bool {
    &&& trigger.schema_name@ == schema_name
    &&& trigger.table_name@ == table_name
    &&& lookup_text(row, "trigger_name"@) == Some(trigger.name@)
    &&& lookup_text(row, "action_timing"@) == Some(trigger.action_timing@)
    &&& lookup_text(row, "event_manipulation"@).is_some()
    &&& texts(trigger.events@) == events_of(lookup_text(row, "event_manipulation"@)->Some_0)
    &&& lookup_text(row, "action_statement"@) == Some(trigger.action_statement@)
}

/// The rows that describe a trigger.
pub open spec fn trigger_rows(rows: Seq<RowView>) -> Seq<RowView> {
    kept(rows, |row: RowView| has_trigger(row))
}

/// Reads the triggers of a table from the rows of `triggers_query`. A row
/// that lacks one of the four columns is left out.
pub fn triggers_from_rows(
    rows: &Vec<NormalizedRow>,
    schema_name: &str,
    table_name: &str,
) -> (triggers: Vec<PostgreTrigger>)
    ensures
        triggers@.len() == trigger_rows(rows_view(rows@)).len(),
        forall|i: int|
            0 <= i < triggers@.len() ==> trigger_of(
                #[trigger] triggers@[i],
                trigger_rows(rows_view(rows@))[i],
                schema_name@,
                table_name@,
            ),
{
    let ghost all = rows_view(rows@);
    let ghost keep = |row: RowView| has_trigger(row);
    let mut triggers: Vec<PostgreTrigger> = Vec::new();
    let mut r: usize = 0;
    while r < rows.len()
        invariant
            r <= rows@.len(),
            all == rows_view(rows@),
            keep == |row: RowView| has_trigger(row),
            triggers@.len() == kept(all.take(r as int), keep).len(),
            forall|i: int|
                0 <= i < triggers@.len() ==> trigger_of(
                    #[trigger] triggers@[i],
                    kept(all.take(r as int), keep)[i],
                    schema_name@,
                    table_name@,
                ),
        decreases rows@.len() - r,
    {
        proof {
            lemma_kept_next(all, keep, r as int);
        }
        let row = &rows[r];
        match (
            row.text("event_manipulation"),
            row.text("trigger_name"),
            row.text("action_timing"),
            row.text("action_statement"),
        ) {
            (Some(list), Some(name), Some(action_timing), Some(action_statement)) => {
                triggers.push(
                    PostgreTrigger {
                        schema_name: schema_name.to_owned(),
                        table_name: table_name.to_owned(),
                        name,
                        action_timing,
                        events: trigger_events(list.as_str()),
                        action_statement,
                    },
                );
            },
            _ => {},
        }
        r = r + 1;
    }
    assert(all.take(r as int) =~= all);
    triggers
}

/// The text of the statement that lists the indexes of a table.
pub open spec fn indexes_sql(schema_name: Seq<char>, table_name: Seq<char>) -> Seq<char> {
    "SELECT indexname AS name, schemaname AS schema_name, tablename AS table_name, indexdef FROM pg_indexes WHERE schemaname = '"@
        + schema_name + "' AND tablename = '"@ + table_name + "' ORDER BY indexname"@
}

/// The statement that lists the indexes of a table, by name.
pub fn indexes_query(schema_name: &str, table_name: &str) -> (sql: String)
    ensures
        sql@ == indexes_sql(schema_name@, table_name@),
{
    let sql = quoted(
        "SELECT indexname AS name, schemaname AS schema_name, tablename AS table_name, indexdef FROM pg_indexes WHERE schemaname = '".to_owned(),
        schema_name,
        "' AND tablename = '",
    );
    quoted(sql, table_name, "' ORDER BY indexname")
}

/// Whether a row has all that an index record needs.
pub open spec fn has_index(row: RowView) -> bool {
    &&& lookup_text(row, "schema_name"@).is_some()
    &&& lookup_text(row, "table_name"@).is_some()
    &&& lookup_text(row, "name"@).is_some()
    &&& lookup_text(row, "indexdef"@).is_some()
}

/// Whether a record is what a row says of an index.
pub open spec fn index_of(index: PostgreIndex, row: RowView) -> bool {
    &&& lookup_text(row, "schema_name"@) == Some(index.schema_name@)
    &&& lookup_text(row, "table_name"@) == Some(index.table_name@)
    &&& lookup_text(row, "name"@) == Some(index.name@)
    &&& lookup_text(row, "indexdef"@) == Some(index.index_def@)
}

/// The rows that describe an index.
pub open spec fn index_rows(rows: Seq<RowView>) -> Seq<RowView> {
    kept(rows, |row: RowView| has_index(row))
}

/// Reads the indexes from the rows of `indexes_query`. A row that lacks one
/// of the four columns is left out.
pub fn indexes_from_rows(rows: &Vec<NormalizedRow>) -> (indexes: Vec<PostgreIndex>)
    ensures
        indexes@.len() == index_rows(rows_view(rows@)).len(),
        forall|i: int|
            0 <= i < indexes@.len() ==> index_of(
                #[trigger] indexes@[i],
                index_rows(rows_view(rows@))[i],
            ),
{
    let ghost all = rows_view(rows@);
    let ghost keep = |row: RowView| has_index(row);
    let mut indexes: Vec<PostgreIndex> = Vec::new();
    let mut r: usize = 0;
    while r < rows.len()
        invariant
            r <= rows@.len(),
            all == rows_view(rows@),
            keep == |row: RowView| has_index(row),
            indexes@.len() == kept(all.take(r as int), keep).len(),
            forall|i: int|
                0 <= i < indexes@.len() ==> index_of(
                    #[trigger] indexes@[i],
                    kept(all.take(r as int), keep)[i],
                ),
        decreases rows@.len() - r,
    {
        proof {
            lemma_kept_next(all, keep, r as int);
        }
        let row = &rows[r];
        match (
            row.text("schema_name"),
            row.text("table_name"),
            row.text("name"),
            row.text("indexdef"),
        ) {
            (Some(schema_name), Some(table_name), Some(name), Some(index_def)) => {
                indexes.push(PostgreIndex { schema_name, table_name, name, index_def });
            },
            _ => {},
        }
        r = r + 1;
    }
    assert(all.take(r as int) =~= all);
    indexes
}

} // verus!
