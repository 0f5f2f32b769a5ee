//! Result sets: the columns a statement declares, the raw rows a backend
//! returns, and the normalized rows handed to callers.

use crate::text::same_text;
use crate::types::{rule_for, rule_under, Backend};
use crate::value::{decode_by, decoded, text_of, RawValue};
use vstd::prelude::*;

verus! {

/// One result column that a statement declares: its name and the name of its
/// backend type.
#[derive(Clone, Debug, PartialEq, Eq)]
pub struct Column {
    pub name: String,
    pub typname: String,
}

/// The name of a result column of the embedded file database: the name the
/// statement gives it, or `unknown` where it gives none.
pub open spec fn sqlite_column_name(name: Option<&str>) -> Seq<char> {
    match name {
        Some(given) => given@,
        None => "unknown"@,
    }
}

/// Declares a result column of the embedded file database. Its values are
/// read as text.
pub fn sqlite_column(name: Option<&str>) -> (column: Column)
    ensures
        column.name@ == sqlite_column_name(name),
        column.typname@ == "text"@,
{
    Column {
        name: match name {
            Some(given) => given.to_owned(),
            None => "unknown".to_owned(),
        },
        typname: "text".to_owned(),
    }
}

/// What a backend returns for one statement: the declared result columns, in
/// order, and the rows, each a list of raw values by column position.
#[derive(Clone, Debug, PartialEq, Eq)]
pub struct RawResult {
    pub backend: Backend,
    pub columns: Vec<Column>,
    pub rows: Vec<Vec<RawValue>>,
}

/// One entry of a normalized row: a column name and the column's text, or
/// `None` for the null marker.
#[derive(Clone, Debug, PartialEq, Eq)]
pub struct Cell {
    pub name: String,
    pub value: Option<String>,
}

/// A backend-agnostic row: one cell for each declared result column, in
/// declared order. Columns that share a name each keep their own cell.
#[derive(Clone, Debug, PartialEq, Eq)]
pub struct NormalizedRow {
    pub cells: Vec<Cell>,
}

/// What a cell is: its column's name, and its text or `None` for the null
/// marker.
pub type CellView = (Seq<char>, Option<Seq<char>>);

/// What a normalized row is: its cells in column order.
pub type RowView = Seq<CellView>;

impl View for Cell {
    type V = CellView;

    open spec fn view(&self) -> CellView {
        (self.name@, text_of(self.value))
    }
}

impl View for NormalizedRow {
    type V = RowView;

    open spec fn view(&self) -> RowView {
        Seq::new(self.cells@.len(), |i: int| self.cells@[i]@)
    }
}

/// The cell for the column at position `i`: the column's name with the decoded
/// value at that position, or with the null marker where the row holds no
/// value there.
pub open spec fn normalized_cell(
    backend: Backend,
    columns: Seq<Column>,
    values: Seq<RawValue>,
    i: int,
) -> CellView {
    (
        columns[i].name@,
        if i < values.len() {
            decoded(rule_under(backend, columns[i].typname@), values[i])
        } else {
            None
        },
    )
}

/// The normalized form of one raw row under the declared columns.
pub open spec fn normalized_row(backend: Backend, columns: Seq<Column>, values: Seq<RawValue>)
    -> RowView {
    Seq::new(columns.len(), |i: int| normalized_cell(backend, columns, values, i))
}

/// The normalized form of every row of a result, in the order the backend
/// returned them.
pub open spec fn normalized(result: RawResult) -> Seq<RowView> {
    Seq::new(
        result.rows@.len(),
        |r: int| normalized_row(result.backend, result.columns@, result.rows@[r]@),
    )
}

/// The views of a list of normalized rows.
pub open spec fn rows_view(rows: Seq<NormalizedRow>) -> Seq<RowView> {
    Seq::new(rows.len(), |r: int| rows[r]@)
}

/// Normalizes one raw row: every declared column gets a cell, in declared
/// order, whose value is decoded by the backend's rule for the column's type.
/// A column for which the row holds no value gets the null marker; values
/// beyond the declared columns are left out.
pub fn normalize_row(
    backend: Backend,
    columns: &Vec<Column>,
    values: &Vec<RawValue>,
) -> (row: NormalizedRow)
    ensures
        row@ == normalized_row(backend, columns@, values@),
        row@.len() == columns@.len(),
{
    let mut cells: Vec<Cell> = Vec::new();
    let mut i: usize = 0;
    while i < columns.len()
        invariant
            i <= columns@.len(),
            cells@.len() == i,
            forall|k: int| 0 <= k < i ==> (#[trigger] cells@[k])@ == normalized_cell(
                backend,
                columns@,
                values@,
                k,
            ),
        decreases columns@.len() - i,
    {
        let value = if i < values.len() {
            decode_by(rule_for(backend, columns[i].typname.as_str()), &values[i])
        } else {
            None
        };
        cells.push(Cell { name: columns[i].name.clone(), value });
        i = i + 1;
    }
    let row = NormalizedRow { cells };
    assert(row@ =~= normalized_row(backend, columns@, values@));
    row
}

/// Normalizes a whole result. A statement that returned no rows gives an
/// empty list.
pub fn normalize(result: &RawResult) -> (rows: Vec<NormalizedRow>)
    ensures
        rows_view(rows@) == normalized(*result),
        rows@.len() == result.rows@.len(),
        forall|r: int|
            0 <= r < rows@.len() ==> (#[trigger] rows@[r])@.len() == result.columns@.len(),
{
    let mut rows: Vec<NormalizedRow> = Vec::new();
    let mut r: usize = 0;
    while r < result.rows.len()
        invariant
            r <= result.rows@.len(),
            rows@.len() == r,
            forall|k: int| 0 <= k < r ==> (#[trigger] rows@[k])@ == normalized_row(
                result.backend,
                result.columns@,
                result.rows@[k]@,
            ),
        decreases result.rows@.len() - r,
    {
        rows.push(normalize_row(result.backend, &result.columns, &result.rows[r]));
        r = r + 1;
    }
    assert(rows_view(rows@) =~= normalized(*result));
    rows
}

/// Every normalized row follows the declared columns: it has as many cells as
/// the statement declares columns, and its cells bear the columns' names in
/// the declared order.
pub proof fn rows_follow_the_columns(result: RawResult, r: int, i: int)
    requires
        0 <= r < result.rows@.len(),
        0 <= i < result.columns@.len(),
    ensures
        normalized(result).len() == result.rows@.len(),
        normalized(result)[r].len() == result.columns@.len(),
        normalized(result)[r][i].0 == result.columns@[i].name@,
{
}

/// The value of the last cell named `name`, or `None` where no cell has
/// that name. Where several columns share a name, the last one is found, as
/// in a map filled in column order.
pub open spec fn lookup(row: RowView, name: Seq<char>) -> Option<Option<Seq<char>>>
    decreases row.len(),
{
    if row.len() == 0 {
        None
    } else if row.last().0 == name {
        Some(row.last().1)
    } else {
        lookup(row.drop_last(), name)
    }
}

/// A cell's value as text, with the word `NULL` for the null marker.
pub open spec fn rendered(value: Option<Seq<char>>) -> Seq<char> {
    match value {
        Some(text) => text,
        None => "NULL"@,
    }
}

/// The text of the last cell named `name`, with `NULL` for the null marker,
/// or `None` where no cell has that name.
pub open spec fn lookup_text(row: RowView, name: Seq<char>) -> Option<Seq<char>> {
    match lookup(row, name) {
        Some(value) => Some(rendered(value)),
        None => None,
    }
}

impl Cell {
    /// The cell's value as text, with the word `NULL` for the null marker.
    pub fn render(&self) -> (text: String)
        ensures
            text@ == rendered(self@.1),
    {
        match &self.value {
            Some(text) => text.clone(),
            None => "NULL".to_owned(),
        }
    }
}

impl NormalizedRow {
    /// The number of cells, which is the number of declared result columns.
    pub fn len(&self) -> (n: usize)
        ensures
            n == self@.len(),
    {
        self.cells.len()
    }

    /// The last cell named `name`, if there is one.
    pub fn get(&self, name: &str) -> (cell: Option<&Cell>)
        ensures
            cell matches Some(found) ==> found@.0 == name@ && lookup(self@, name@) == Some(
                found@.1,
            ),
            cell.is_none() ==> lookup(self@, name@).is_none(),
    {
        let mut i: usize = self.cells.len();
        assert(self@.take(i as int) =~= self@);
        while i > 0
            invariant
                i <= self.cells@.len(),
                lookup(self@, name@) == lookup(self@.take(i as int), name@),
            decreases i,
        {
            i = i - 1;
            proof {
                assert(self@.take(i + 1).drop_last() =~= self@.take(i as int));
                assert(self@.take(i + 1).last() == self.cells@[i as int]@);
            }
            if same_text(self.cells[i].name.as_str(), name) {
                return Some(&self.cells[i]);
            }
        }
        None
    }

    /// The text of the last cell named `name`, with `NULL` for the null
    /// marker, or `None` where no cell has that name.
    pub fn text(&self, name: &str) -> (text: Option<String>)
        ensures
            text_of(text) == lookup_text(self@, name@),
    {
        match self.get(name) {
            Some(cell) => Some(cell.render()),
            None => None,
        }
    }
}

} // verus!
