//! Upsert statements, built with `sea_query`.
//!
//! A statement is held as `sea_query::InsertStatement`. What it inserts and
//! what it does on a conflict is stated over [`statement_model`], which the
//! contracts of the functions that fill a statement speak of.

use crate::calendar::{Date, Time};
use crate::views::seq_view;
use vstd::prelude::*;

verus! {

/// A value of one column of a row.
#[derive(Debug, PartialEq)]
pub enum SqlValue {
    /// A text, or no value.
    Text(Option<String>),
    /// The identifier of a row of the store.
    Id(u128),
    /// A calendar day.
    Date(Date),
    /// A time of day, or no value.
    Time(Option<Time>),
    /// A number.
    BigUnsigned(u64),
    /// A list of texts, or no value.
    Texts(Option<Vec<String>>),
}

/// A [`SqlValue`] as plain values.
pub enum SqlValueView {
    Text(Option<Seq<char>>),
    Id(u128),
    Date(Date),
    Time(Option<Time>),
    BigUnsigned(u64),
    Texts(Option<Seq<Seq<char>>>),
}

impl View for SqlValue {
    type V = SqlValueView;

    open spec fn view(&self) -> SqlValueView {
        match self {
            SqlValue::Text(Some(t)) => SqlValueView::Text(Some(t@)),
            SqlValue::Text(None) => SqlValueView::Text(None),
            SqlValue::Id(id) => SqlValueView::Id(*id),
            SqlValue::Date(d) => SqlValueView::Date(*d),
            SqlValue::Time(t) => SqlValueView::Time(*t),
            SqlValue::BigUnsigned(n) => SqlValueView::BigUnsigned(*n),
            SqlValue::Texts(Some(v)) => SqlValueView::Texts(Some(seq_view(v@))),
            SqlValue::Texts(None) => SqlValueView::Texts(None),
        }
    }
}

impl SqlValue {
    /// A day is one that `chrono` can hold, and a time one that the clock
    /// shows.
    pub open spec fn wf(&self) -> bool {
        match self {
            SqlValue::Date(d) => d.wf(),
            SqlValue::Time(Some(t)) => t.wf(),
            _ => true,
        }
    }
}

/// What a statement does where the row is in the table already.
pub struct ConflictModel {
    /// The columns that tell whether the row is there.
    pub keys: Seq<Seq<char>>,
    /// The columns that take the new row's value.
    pub update_columns: Seq<Seq<char>>,
    /// The columns that take the value of an expression, each with its
    /// expression.
    pub merged: Seq<(Seq<char>, Seq<char>)>,
}

/// What an insert statement says.
pub struct StatementModel {
    /// The table that the rows go to.
    pub table: Option<Seq<char>>,
    /// The columns that the rows have values for.
    pub columns: Seq<Seq<char>>,
    /// The rows, each with one value per column.
    pub rows: Seq<Seq<SqlValueView>>,
    /// What is done where a row is in the table already.
    pub conflict: Option<ConflictModel>,
    /// The columns whose values the statement hands back.
    pub returning: Option<Seq<Seq<char>>>,
}

#[verifier::external_type_specification]
#[verifier::external_body]
pub struct ExInsertStatement(sea_query::InsertStatement);

#[verifier::external_type_specification]
#[verifier::external_body]
pub struct ExExpr(sea_query::Expr);

/// What a `sea_query::InsertStatement` says.
pub uninterp spec fn statement_model(statement: sea_query::InsertStatement) -> StatementModel;

/// The value that a `sea_query::Expr` holds.
pub uninterp spec fn expr_value(expr: sea_query::Expr) -> SqlValueView;

/// The values that a list of expressions holds.
pub open spec fn expr_values(cells: Seq<sea_query::Expr>) -> Seq<SqlValueView> {
    Seq::new(cells.len(), |k: int| expr_value(cells[k]))
}

/// Calls `sea_query::Query::insert`, which makes a statement that names no
/// table, no columns and no rows, and nothing to do on a conflict or to
/// hand back.
#[verifier::external_body]
pub(crate) fn new_insert() -> (r: sea_query::InsertStatement)
    ensures
        statement_model(r) == (StatementModel {
            table: None,
            columns: Seq::empty(),
            rows: Seq::empty(),
            conflict: None,
            returning: None,
        }),
{
    sea_query::Query::insert()
}

/// Calls `sea_query::InsertStatement::into_table`, which sets the table and
/// nothing else.
#[verifier::external_body]
pub(crate) fn into_table(statement: &mut sea_query::InsertStatement, table: &str)
    ensures
        statement_model(*final(statement)) == (StatementModel {
            table: Some(table@),
            ..statement_model(*old(statement))
        }),
{
    statement.into_table(sea_query::Alias::new(table));
}

/// Calls `sea_query::InsertStatement::columns`, which sets the columns and
/// nothing else.
#[verifier::external_body]
pub(crate) fn columns(statement: &mut sea_query::InsertStatement, columns: &Vec<String>)
    ensures
        statement_model(*final(statement)) == (StatementModel {
            columns: seq_view(columns@),
            ..statement_model(*old(statement))
        }),
{
    statement.columns(columns.iter().map(sea_query::Alias::new));
}

/// Calls `sea_query::InsertStatement::on_conflict` with what
/// `OnConflict::columns`, `update_columns` and `values` make of the
/// arguments: on a conflict in `keys`, the columns `update_columns` take the
/// new row's values, and each column of `merged` takes the value of its
/// expression, which `Expr::cust` holds as it is written.
#[verifier::external_body]
pub(crate) fn on_conflict(
    statement: &mut sea_query::InsertStatement,
    keys: &Vec<String>,
    update_columns: &Vec<String>,
    merged: &Vec<(String, String)>,
)
    ensures
        statement_model(*final(statement)) == (StatementModel {
            conflict: Some(
                ConflictModel {
                    keys: seq_view(keys@),
                    update_columns: seq_view(update_columns@),
                    merged: Seq::new(merged@.len(), |k: int| (merged@[k].0@, merged@[k].1@)),
                },
            ),
            ..statement_model(*old(statement))
        }),
{
    let mut conflict = sea_query::OnConflict::columns(keys.iter().map(sea_query::Alias::new));
    conflict.update_columns(update_columns.iter().map(sea_query::Alias::new));
    conflict.values(
        merged.iter().map(|m| (sea_query::Alias::new(&m.0), sea_query::Expr::cust(m.1.clone()))),
    );
    statement.on_conflict(conflict);
}

/// Calls `sea_query::InsertStatement::returning` with the columns that
/// `Returning::columns` makes of `columns`; it sets what the statement
/// hands back and nothing else.
#[verifier::external_body]
pub(crate) fn returning(statement: &mut sea_query::InsertStatement, columns: &Vec<String>)
    ensures
        statement_model(*final(statement)) == (StatementModel {
            returning: Some(seq_view(columns@)),
            ..statement_model(*old(statement))
        }),
{
    statement.returning(
        sea_query::Query::returning().columns(columns.iter().map(sea_query::Alias::new)),
    );
}

/// Makes the `sea_query::Expr` that holds `value`, by the `From` impls that
/// `sea_query` has for texts, `uuid::Uuid`, `chrono::NaiveDate`,
/// `chrono::NaiveTime`, `u64` and lists of texts. The day and the time are
/// made with `from_num_days_from_ce_opt` and `from_hms_opt`.
#[verifier::external_body]
pub(crate) fn to_expr(value: &SqlValue) -> (r: sea_query::Expr)
    requires
        value.wf(),
    ensures
        expr_value(r) == value@,
{
    match value {
        SqlValue::Text(t) => t.clone().into(),
        SqlValue::Id(id) => uuid::Uuid::from_u128(*id).into(),
        SqlValue::Date(d) => chrono::NaiveDate::from_num_days_from_ce_opt(d.days).unwrap().into(),
        SqlValue::Time(Some(t)) => Some(
            chrono::NaiveTime::from_hms_opt(t.hour, t.minute, t.second).unwrap(),
        ).into(),
        SqlValue::Time(None) => None::<chrono::NaiveTime>.into(),
        SqlValue::BigUnsigned(n) => (*n).into(),
        SqlValue::Texts(v) => v.clone().into(),
    }
}

/// Calls `sea_query::InsertStatement::values`, which appends a row where
/// the statement has as many columns as the row has values, and else
/// leaves the statement as it is and fails. Says whether the row was
/// taken.
#[verifier::external_body]
pub(crate) fn values(statement: &mut sea_query::InsertStatement, cells: Vec<sea_query::Expr>) -> (ok: bool)
    requires
        cells@.len() > 0,
    ensures
        ok == (cells@.len() == statement_model(*old(statement)).columns.len()),
        statement_model(*final(statement)) == if ok {
            StatementModel {
                rows: statement_model(*old(statement)).rows.push(expr_values(cells@)),
                ..statement_model(*old(statement))
            }
        } else {
            statement_model(*old(statement))
        },
{
    statement.values(cells).is_ok()
}

/// The plain values of a row.
pub open spec fn row_view(row: Seq<SqlValue>) -> Seq<SqlValueView> {
    seq_view(row)
}

/// A statement that inserts into `table`, with values for `columns`, and
/// no rows yet. Where a row conflicts in `keys`, the row in the table takes
/// the new values of `update_columns` and, for each column of `merged`, the
/// value of its expression.
pub fn upsert_into(
    table: &str,
    column_names: &Vec<String>,
    keys: &Vec<String>,
    update_columns: &Vec<String>,
    merged: &Vec<(String, String)>,
) -> (r: sea_query::InsertStatement)
    ensures
        statement_model(r) == (StatementModel {
            table: Some(table@),
            columns: seq_view(column_names@),
            rows: Seq::empty(),
            conflict: Some(
                ConflictModel {
                    keys: seq_view(keys@),
                    update_columns: seq_view(update_columns@),
                    merged: Seq::new(merged@.len(), |k: int| (merged@[k].0@, merged@[k].1@)),
                },
            ),
            returning: None,
        }),
{
    let mut statement = new_insert();
    into_table(&mut statement, table);
    columns(&mut statement, column_names);
    on_conflict(&mut statement, keys, update_columns, merged);
    statement
}

/// Appends a row to the statement. The row is taken where it has one value
/// for each column of the statement; else the statement stays as it is.
/// Says whether the row was taken.
pub fn add_row(statement: &mut sea_query::InsertStatement, row: &Vec<SqlValue>) -> (ok: bool)
    requires
        row@.len() > 0,
        forall|k: int| 0 <= k < row@.len() ==> (#[trigger] row@[k]).wf(),
    ensures
        ok == (row@.len() == statement_model(*old(statement)).columns.len()),
        statement_model(*final(statement)) == if ok {
            StatementModel {
                rows: statement_model(*old(statement)).rows.push(row_view(row@)),
                ..statement_model(*old(statement))
            }
        } else {
            statement_model(*old(statement))
        },
{
    let mut cells: Vec<sea_query::Expr> = Vec::new();
    let mut k: usize = 0;
    while k < row.len()
        invariant
            k <= row.len(),
            cells@.len() == k,
            forall|j: int| 0 <= j < row@.len() ==> (#[trigger] row@[j]).wf(),
            forall|j: int| 0 <= j < k ==> expr_value(#[trigger] cells@[j]) == row@[j]@,
        decreases row.len() - k,
    {
        cells.push(to_expr(&row[k]));
        k += 1;
    }
    assert(expr_values(cells@) =~= row_view(row@));
    values(statement, cells)
}

} // verus!
