//! Statements of the executor API, which lists the id column in front of the other columns.

use vstd::prelude::*;
use vstd::string::*;
use crate::placeholder::FormatPlaceholder;
use crate::sql::{insert_sql, insert_text};
use crate::text::{quote_columns, quoted_list, strs};
use crate::traits::{HasColumns, HasId};

verus! {

/// The id column followed by the other columns.
pub fn columns_with_id(id_column: &'static str, columns: Vec<&'static str>) -> (res: Vec<&'static str>)
    ensures
        res@ == seq![id_column] + columns@,
{
    let mut res = vec![id_column];
    let mut rest = columns;
    res.append(&mut rest);
    res
}

/// # Returns
/// a comma delimited string of the columns for
/// the given schema starting with the id column. The names come from the entity's own
/// [`HasId::id_column`] and [`HasColumns::columns`]; [`columns_with_id`] and
/// [`quote_columns`](crate::text::quote_columns) state exactly what is made of them.
pub fn comma_delimited_columns_with_id<S: HasId + HasColumns>() -> (res: String)
    ensures
        exists|id: &'static str, columns: Vec<&'static str>|
            call_ensures(<S as HasId>::id_column, (), id) && call_ensures(<S as HasColumns>::columns, (), columns)
                && res@ == quoted_list(strs(seq![id] + columns@)),
{
    let id = S::id_column();
    let columns = S::columns();
    let ghost names = columns;
    let all = columns_with_id(id, columns);
    let res = quote_columns(&all);
    assert(call_ensures(<S as HasColumns>::columns, (), names));
    assert(res@ == quoted_list(strs(seq![id] + names@)));
    res
}

/// `SELECT "<id>",<columns> FROM <table>;`
pub open spec fn select_all_with_id_text(table: Seq<char>, id_column: Seq<char>, columns: Seq<Seq<char>>) -> Seq<char> {
    "SELECT "@ + quoted_list(seq![id_column] + columns) + " FROM "@ + table + ";"@
}

/// The statement that selects every row, id column first, in no particular order.
pub fn select_all_with_id_sql(table_name: &str, id_column: &str, columns: &Vec<&str>) -> (res: String)
    ensures
        res@ == select_all_with_id_text(table_name@, id_column@, strs(columns@)),
{
    let mut all: Vec<&str> = vec![id_column];
    let mut i: usize = 0;
    while i < columns.len()
        invariant
            i <= columns.len(),
            all@ == seq![id_column] + columns@.take(i as int),
        decreases columns.len() - i,
    {
        all.push(columns[i]);
        assert(columns@.take(i + 1) =~= columns@.take(i as int).push(columns@[i as int]));
        i = i + 1;
    }
    assert(columns@.take(columns.len() as int) =~= columns@);
    assert(strs(all@) =~= seq![id_column@] + strs(columns@));
    let cols = quote_columns(&all);
    let mut sql = String::from_str("SELECT ");
    sql.append(cols.as_str());
    sql.append(" FROM ");
    sql.append(table_name);
    sql.append(";");
    sql
}

/// `INSERT INTO <table> (<columns>) VALUES (...) RETURNING "<id>"`: Postgres hands back the id
/// it assigned.
pub open spec fn pg_insert_text(table: Seq<char>, id_column: Seq<char>, columns: Seq<Seq<char>>) -> Seq<char> {
    insert_text::<sqlx::Postgres>(table, columns) + " RETURNING \""@ + id_column + "\""@
}

/// The Postgres statement that inserts a row without its id and returns the id assigned.
pub fn pg_insert_sql(table_name: &str, id_column: &str, columns: &Vec<&str>) -> (res: String)
    ensures
        res@ == pg_insert_text(table_name@, id_column@, strs(columns@)),
{
    let mut sql = insert_sql::<sqlx::Postgres>(table_name, columns);
    sql.append(" RETURNING \"");
    sql.append(id_column);
    sql.append("\"");
    sql
}

} // verus!
