//! The SQL statements behind the CRUD helpers, and how many-row operations are split into
//! batches.

use vstd::prelude::*;
use vstd::string::*;
use crate::placeholder::{FormatPlaceholder, placeholder_list, placeholder_seq, format_placeholders, format_placeholders_from};
use crate::text::{join, join_strings, quote_columns, quoted_list, strs, views};
use crate::traits::Schema;

verus! {

/// The rows (or ids) that the next batch takes when `remaining` are left: all of them when
/// `batch_size` is `0`, else at most `batch_size`.
pub open spec fn chunk_len(remaining: nat, batch_size: nat) -> nat {
    if batch_size == 0 || remaining <= batch_size {
        remaining
    } else {
        batch_size
    }
}

/// The sizes of the batches that `n` rows (or ids) are split into.
pub open spec fn chunk_sizes(n: nat, batch_size: nat) -> Seq<nat>
    decreases n,
{
    if n == 0 {
        Seq::empty()
    } else {
        let c = chunk_len(n, batch_size);
        seq![c] + chunk_sizes((n - c) as nat, batch_size)
    }
}

/// `SELECT <columns> FROM <table> ORDER BY <id> ASC;`
pub open spec fn select_all_text(table: Seq<char>, columns: Seq<Seq<char>>, id_column: Seq<char>) -> Seq<char> {
    "SELECT "@ + quoted_list(columns) + " FROM "@ + table + " ORDER BY "@ + id_column + " ASC;"@
}

/// `SELECT <columns> FROM <table>;`
pub open spec fn select_all_no_id_text(table: Seq<char>, columns: Seq<Seq<char>>) -> Seq<char> {
    "SELECT "@ + quoted_list(columns) + " FROM "@ + table + ";"@
}

/// `DELETE FROM <table>;`
pub open spec fn delete_all_text(table: Seq<char>) -> Seq<char> {
    "DELETE FROM "@ + table + ";"@
}

/// `SELECT <columns> FROM <table> WHERE <id> = <p0>;`
pub open spec fn select_by_id_text<DB: FormatPlaceholder>(table: Seq<char>, columns: Seq<Seq<char>>, id_column: Seq<char>) -> Seq<char> {
    "SELECT "@ + quoted_list(columns) + " FROM "@ + table + " WHERE "@ + id_column + " = "@
        + DB::spec_placeholder(0) + ";"@
}

/// `SELECT 1 FROM <table> WHERE "<id>" = <p0>;`
pub open spec fn id_exists_text<DB: FormatPlaceholder>(table: Seq<char>, id_column: Seq<char>) -> Seq<char> {
    "SELECT 1 FROM "@ + table + " WHERE \""@ + id_column + "\" = "@ + DB::spec_placeholder(0) + ";"@
}

/// `DELETE FROM <table> WHERE <id> = <p0>`
pub open spec fn delete_by_id_text<DB: FormatPlaceholder>(table: Seq<char>, id_column: Seq<char>) -> Seq<char> {
    "DELETE FROM "@ + table + " WHERE "@ + id_column + " = "@ + DB::spec_placeholder(0)
}

/// `INSERT INTO <table> (<columns>) VALUES (<p0>,...,<pn-1>)`
pub open spec fn insert_text<DB: FormatPlaceholder>(table: Seq<char>, columns: Seq<Seq<char>>) -> Seq<char> {
    "INSERT INTO "@ + table + " ("@ + quoted_list(columns) + ") VALUES ("@
        + placeholder_list::<DB>(0, columns.len()) + ")"@
}

/// The value tuple of row `row` in a many-row insert: its placeholders continue the numbering
/// of the rows before it.
pub open spec fn values_tuple<DB: FormatPlaceholder>(row: nat, per_row: nat) -> Seq<char> {
    "("@ + placeholder_list::<DB>(row * per_row, per_row) + ")"@
}

/// `INSERT INTO <table> (<columns>) VALUES (...),(...)` with `rows` value tuples.
pub open spec fn insert_many_text<DB: FormatPlaceholder>(table: Seq<char>, columns: Seq<Seq<char>>, rows: nat) -> Seq<char> {
    "INSERT INTO "@ + table + " ("@ + quoted_list(columns) + ") VALUES "@
        + join(Seq::new(rows, |r: int| values_tuple::<DB>(r as nat, columns.len())), ","@)
}

/// The assignment `"<column>"=<p_i>` of an update.
pub open spec fn assignment<DB: FormatPlaceholder>(column: Seq<char>, idx: nat) -> Seq<char> {
    quoted_list(seq![column]) + "="@ + DB::spec_placeholder(idx)
}

/// `UPDATE <table> SET "<c0>"=<p0>,... WHERE <id> = <pn>`: the id is bound after the columns.
pub open spec fn update_by_id_text<DB: FormatPlaceholder>(table: Seq<char>, id_column: Seq<char>, columns: Seq<Seq<char>>) -> Seq<char> {
    "UPDATE "@ + table + " SET "@
        + join(Seq::new(columns.len(), |i: int| assignment::<DB>(columns[i], i as nat)), ","@)
        + " WHERE "@ + id_column + " = "@ + DB::spec_placeholder(columns.len())
}

/// The placeholders of each `IN (...)` group when `remaining` ids are left and the next
/// placeholder has index `start`.
pub open spec fn placeholder_groups<DB: FormatPlaceholder>(start: nat, remaining: nat, batch_size: nat) -> Seq<Seq<Seq<char>>>
    decreases remaining,
{
    if remaining == 0 {
        Seq::empty()
    } else {
        let c = chunk_len(remaining, batch_size);
        seq![placeholder_seq::<DB>(start, c)] + placeholder_groups::<DB>(start + c, (remaining - c) as nat, batch_size)
    }
}

/// `<id> IN (<placeholders>)`
pub open spec fn in_clause(id_column: Seq<char>, group: Seq<Seq<char>>) -> Seq<char> {
    id_column + " IN ("@ + join(group, ","@) + ")"@
}

/// `SELECT <columns> FROM <table> WHERE <id> IN (...) OR <id> IN (...) ORDER BY <id> ASC;`
/// with one `IN` group per batch of ids.
pub open spec fn select_by_ids_text<DB: FormatPlaceholder>(
    table: Seq<char>,
    columns: Seq<Seq<char>>,
    id_column: Seq<char>,
    n_ids: nat,
    batch_size: nat,
) -> Seq<char> {
    "SELECT "@ + quoted_list(columns) + " FROM "@ + table + " WHERE "@
        + join(placeholder_groups::<DB>(0, n_ids, batch_size).map_values(|g: Seq<Seq<char>>| in_clause(id_column, g)), " OR "@)
        + " ORDER BY "@ + id_column + " ASC;"@
}

/// # Returns
/// A comma-delimited, double-quoted string of every column returned by [`Schema::columns`],
/// in its order. For types with an id field this includes the id column (it is listed first by
/// the derive).
pub fn comma_delimited_columns<S: Schema>() -> (res: String)
    ensures
        exists|columns: Vec<&'static str>|
            call_ensures(<S as Schema>::columns, (), columns) && res@ == quoted_list(strs(columns@)),
{
    let columns = S::columns();
    quote_columns(&columns)
}

/// The statement that selects every row, ordered by id.
pub fn select_all_sql(table_name: &str, columns: &Vec<&str>, id_column: &str) -> (res: String)
    ensures
        res@ == select_all_text(table_name@, strs(columns@), id_column@),
{
    let cols = quote_columns(columns);
    let mut sql = String::from_str("SELECT ");
    sql.append(cols.as_str());
    sql.append(" FROM ");
    sql.append(table_name);
    sql.append(" ORDER BY ");
    sql.append(id_column);
    sql.append(" ASC;");
    sql
}

/// The statement that selects every row of a table without an id column.
pub fn select_all_no_id_sql(table_name: &str, columns: &Vec<&str>) -> (res: String)
    ensures
        res@ == select_all_no_id_text(table_name@, strs(columns@)),
{
    let cols = quote_columns(columns);
    let mut sql = String::from_str("SELECT ");
    sql.append(cols.as_str());
    sql.append(" FROM ");
    sql.append(table_name);
    sql.append(";");
    sql
}

/// The statement that deletes every row.
pub fn delete_all_sql(table_name: &str) -> (res: String)
    ensures
        res@ == delete_all_text(table_name@),
{
    let mut sql = String::from_str("DELETE FROM ");
    sql.append(table_name);
    sql.append(";");
    sql
}

/// The statement that selects the row with a given id; the id is its only bound argument.
pub fn select_by_id_sql<DB: FormatPlaceholder>(table_name: &str, columns: &Vec<&str>, id_column: &str) -> (res: String)
    ensures
        res@ == select_by_id_text::<DB>(table_name@, strs(columns@), id_column@),
{
    let cols = quote_columns(columns);
    let placeholder = DB::format_placeholder(0);
    let mut sql = String::from_str("SELECT ");
    sql.append(cols.as_str());
    sql.append(" FROM ");
    sql.append(table_name);
    sql.append(" WHERE ");
    sql.append(id_column);
    sql.append(" = ");
    sql.append(placeholder.as_str());
    sql.append(";");
    sql
}

/// The statement that tells whether a row with a given id exists; the id is its only bound
/// argument.
pub fn id_exists_sql<DB: FormatPlaceholder>(table_name: &str, id_column: &str) -> (res: String)
    ensures
        res@ == id_exists_text::<DB>(table_name@, id_column@),
{
    let placeholder = DB::format_placeholder(0);
    let mut sql = String::from_str("SELECT 1 FROM ");
    sql.append(table_name);
    sql.append(" WHERE \"");
    sql.append(id_column);
    sql.append("\" = ");
    sql.append(placeholder.as_str());
    sql.append(";");
    sql
}

/// The statement that deletes the row with a given id; the id is its only bound argument.
pub fn delete_by_id_sql<DB: FormatPlaceholder>(table_name: &str, id_column: &str) -> (res: String)
    ensures
        res@ == delete_by_id_text::<DB>(table_name@, id_column@),
{
    let placeholder = DB::format_placeholder(0);
    let mut sql = String::from_str("DELETE FROM ");
    sql.append(table_name);
    sql.append(" WHERE ");
    sql.append(id_column);
    sql.append(" = ");
    sql.append(placeholder.as_str());
    sql
}

/// The statement that inserts one row with the given columns, one placeholder per column in
/// the same order. With the full column list of [`Schema::columns`] it inserts the id too;
/// with the columns without id it lets the database assign the id.
pub fn insert_sql<DB: FormatPlaceholder>(table_name: &str, columns: &Vec<&str>) -> (res: String)
    ensures
        res@ == insert_text::<DB>(table_name@, strs(columns@)),
{
    let cols = quote_columns(columns);
    let placeholders = format_placeholders::<DB>(columns.len());
    let mut sql = String::from_str("INSERT INTO ");
    sql.append(table_name);
    sql.append(" (");
    sql.append(cols.as_str());
    sql.append(") VALUES (");
    sql.append(placeholders.as_str());
    sql.append(")");
    sql
}

/// The statement that inserts `rows` rows with the given columns: one value tuple per row,
/// the placeholders numbered on across the tuples, so the rows' values are bound one row after
/// the other, each in column order.
pub fn insert_many_sql<DB: FormatPlaceholder>(table_name: &str, columns: &Vec<&str>, rows: usize) -> (res: String)
    requires
        rows * columns.len() <= usize::MAX,
    ensures
        res@ == insert_many_text::<DB>(table_name@, strs(columns@), rows as nat),
{
    let cols = quote_columns(columns);
    let per_row = columns.len();
    let ghost k = per_row as nat;
    let ghost tuples = Seq::new(rows as nat, |r: int| values_tuple::<DB>(r as nat, k));
    let mut values = String::new();
    let mut placeholder_idx: usize = 0;
    let mut r: usize = 0;
    while r < rows
        invariant
            r <= rows,
            rows * per_row <= usize::MAX,
            per_row == columns.len(),
            k == per_row,
            placeholder_idx == r * per_row,
            tuples == Seq::new(rows as nat, |r: int| values_tuple::<DB>(r as nat, k)),
            values@ == join(tuples.take(r as int), ","@),
        decreases rows - r,
    {
        assert((r + 1) * per_row <= rows * per_row) by (nonlinear_arith)
            requires r < rows;
        assert((r + 1) * per_row == r * per_row + per_row) by (nonlinear_arith);
        let placeholders = format_placeholders_from::<DB>(placeholder_idx, per_row);
        if r != 0 {
            values.append(",");
        }
        values.append("(");
        values.append(placeholders.as_str());
        values.append(")");
        assert(tuples.take(r + 1).drop_last() =~= tuples.take(r as int));
        placeholder_idx = placeholder_idx + per_row;
        r = r + 1;
    }
    assert(tuples.take(rows as int) =~= tuples);
    let mut sql = String::from_str("INSERT INTO ");
    sql.append(table_name);
    sql.append(" (");
    sql.append(cols.as_str());
    sql.append(") VALUES ");
    sql.append(values.as_str());
    sql
}

/// The statement that updates the row with the entity's id: every column is set from its
/// placeholder, in column order, and the id is bound last.
pub fn update_by_id_sql<DB: FormatPlaceholder>(table_name: &str, id_column: &str, columns: &Vec<&str>) -> (res: String)
    ensures
        res@ == update_by_id_text::<DB>(table_name@, id_column@, strs(columns@)),
{
    let ghost cs = strs(columns@);
    let ghost all = Seq::new(cs.len(), |i: int| assignment::<DB>(cs[i], i as nat));
    let mut set_sql = String::new();
    let mut idx: usize = 0;
    while idx < columns.len()
        invariant
            idx <= columns.len(),
            cs == strs(columns@),
            all == Seq::new(cs.len(), |i: int| assignment::<DB>(cs[i], i as nat)),
            set_sql@ == join(all.take(idx as int), ","@),
        decreases columns.len() - idx,
    {
        if idx > 0 {
            set_sql.append(",");
        }
        let one = vec![columns[idx]];
        let quoted = quote_columns(&one);
        assert(strs(one@) =~= seq![cs[idx as int]]);
        let placeholder = DB::format_placeholder(idx);
        set_sql.append(quoted.as_str());
        set_sql.append("=");
        set_sql.append(placeholder.as_str());
        assert(all.take(idx + 1).drop_last() =~= all.take(idx as int));
        idx = idx + 1;
    }
    assert(all.take(columns.len() as int) =~= all);
    let id_placeholder = DB::format_placeholder(columns.len());
    let mut sql = String::from_str("UPDATE ");
    sql.append(table_name);
    sql.append(" SET ");
    sql.append(set_sql.as_str());
    sql.append(" WHERE ");
    sql.append(id_column);
    sql.append(" = ");
    sql.append(id_placeholder.as_str());
    sql
}

/// `rows_affected > 0`: whether an update or delete found its row.
pub fn was_affected(rows_affected: u64) -> (res: bool)
    ensures
        res == (rows_affected > 0),
{
    rows_affected > 0
}

/// The statement that selects the rows whose ids are among `n_ids` bound ids, ordered by id.
/// The ids are split into `IN (...)` groups of at most `batch_size` ids (`0`: one group for
/// all), joined with `OR`; the placeholders are numbered on across the groups, so the ids are
/// bound in their given order. With no ids there is no statement: the result is empty without
/// asking the database.
pub fn select_by_ids_sql<DB: FormatPlaceholder>(
    table_name: &str,
    columns: &Vec<&str>,
    id_column: &str,
    n_ids: usize,
    batch_size: usize,
) -> (res: Option<String>)
    ensures
        n_ids == 0 <==> res is None,
        res matches Some(sql) ==> sql@ == select_by_ids_text::<DB>(
            table_name@, strs(columns@), id_column@, n_ids as nat, batch_size as nat),
{
    if n_ids == 0 {
        return None;
    }
    let cols = quote_columns(columns);
    let ghost b = batch_size as nat;
    let ghost id = id_column@;
    let ghost target = placeholder_groups::<DB>(0, n_ids as nat, b).map_values(|g: Seq<Seq<char>>| in_clause(id, g));
    let mut clauses: Vec<String> = Vec::new();
    let mut next: usize = 0;
    let mut remaining: usize = n_ids;
    while remaining > 0
        invariant
            next + remaining == n_ids,
            b == batch_size,
            id == id_column@,
            target == placeholder_groups::<DB>(0, n_ids as nat, b).map_values(|g: Seq<Seq<char>>| in_clause(id, g)),
            views(clauses@) + placeholder_groups::<DB>(next as nat, remaining as nat, b).map_values(
                |g: Seq<Seq<char>>| in_clause(id, g)) == target,
        decreases remaining,
    {
        let current = if batch_size == 0 || remaining <= batch_size { remaining } else { batch_size };
        let placeholders = format_placeholders_from::<DB>(next, current);
        let mut clause = String::from_str(id_column);
        clause.append(" IN (");
        clause.append(placeholders.as_str());
        clause.append(")");
        let ghost old_views = views(clauses@);
        let ghost rest = placeholder_groups::<DB>((next + current) as nat, (remaining - current) as nat, b);
        assert(placeholder_groups::<DB>(next as nat, remaining as nat, b)
            == seq![placeholder_seq::<DB>(next as nat, current as nat)] + rest);
        assert((seq![placeholder_seq::<DB>(next as nat, current as nat)] + rest).map_values(
                |g: Seq<Seq<char>>| in_clause(id, g))
            =~= seq![clause@] + rest.map_values(|g: Seq<Seq<char>>| in_clause(id, g)));
        clauses.push(clause);
        assert(views(clauses@) =~= old_views.push(clause@));
        assert(views(clauses@) + rest.map_values(|g: Seq<Seq<char>>| in_clause(id, g))
            =~= old_views + (seq![clause@] + rest.map_values(|g: Seq<Seq<char>>| in_clause(id, g))));
        next = next + current;
        remaining = remaining - current;
    }
    assert(placeholder_groups::<DB>(next as nat, 0, b) =~= Seq::<Seq<Seq<char>>>::empty());
    assert(views(clauses@) =~= target);
    let where_sql = join_strings(&clauses, " OR ");
    let mut sql = String::from_str("SELECT ");
    sql.append(cols.as_str());
    sql.append(" FROM ");
    sql.append(table_name);
    sql.append(" WHERE ");
    sql.append(where_sql.as_str());
    sql.append(" ORDER BY ");
    sql.append(id_column);
    sql.append(" ASC;");
    Some(sql)
}

/// The character views of the batches.
pub open spec fn batch_views<T>(batches: Seq<Vec<T>>) -> Seq<Seq<T>> {
    batches.map_values(|b: Vec<T>| b@)
}

/// The lengths of the batches.
pub open spec fn batch_lens<T>(batches: Seq<Vec<T>>) -> Seq<nat> {
    batches.map_values(|b: Vec<T>| b@.len())
}

/// Splits the entities of a many-row operation into the batches that are sent one statement
/// each: in their order, at most `batch_size` each (`0`: one batch for all); no batch is empty.
pub fn split_batches<T>(entities: Vec<T>, batch_size: usize) -> (res: Vec<Vec<T>>)
    ensures
        batch_views(res@).flatten() == entities@,
        batch_lens(res@) == chunk_sizes(entities@.len(), batch_size as nat),
{
    let ghost all = entities@;
    let mut batches: Vec<Vec<T>> = Vec::new();
    let mut rest = entities;
    while rest.len() > 0
        invariant
            batch_views(batches@).flatten() + rest@ == all,
            batch_lens(batches@) + chunk_sizes(rest@.len(), batch_size as nat) == chunk_sizes(all.len(), batch_size as nat),
        decreases rest@.len(),
    {
        let chunk_len = if batch_size == 0 || rest.len() <= batch_size { rest.len() } else { batch_size };
        let ghost before = batches@;
        let ghost rest_before = rest@;
        let tail = rest.split_off(chunk_len);
        let ghost chunk = rest@;
        proof {
            batch_views(before).lemma_flatten_push(chunk);
            assert(batch_views(before.push(rest)) =~= batch_views(before).push(chunk));
            assert(batch_lens(before.push(rest)) =~= batch_lens(before).push(chunk_len as nat));
            assert(rest_before =~= chunk + tail@);
            assert(chunk_sizes(rest_before.len(), batch_size as nat)
                == seq![chunk_len as nat] + chunk_sizes(tail@.len(), batch_size as nat));
        }
        batches.push(rest);
        assert(batch_views(batches@).flatten() + tail@ =~= all);
        assert(batch_lens(batches@) + chunk_sizes(tail@.len(), batch_size as nat)
            =~= batch_lens(before) + chunk_sizes(rest_before.len(), batch_size as nat));
        rest = tail;
    }
    assert(chunk_sizes(0, batch_size as nat) =~= Seq::<nat>::empty());
    assert(batch_views(batches@).flatten() + rest@ =~= batch_views(batches@).flatten());
    assert(batch_lens(batches@) + Seq::<nat>::empty() =~= batch_lens(batches@));
    batches
}

/// The sum of a sequence of sizes.
pub open spec fn total(sizes: Seq<nat>) -> nat
    decreases sizes.len(),
{
    if sizes.len() == 0 {
        0
    } else {
        sizes[0] + total(sizes.drop_first())
    }
}

/// Batching covers every row (or id) exactly once: the batch sizes add up to `n`; no batch is
/// empty; with a nonzero `batch_size` no batch exceeds it, every batch but the last is full and
/// there are `ceil(n / batch_size)` batches; with `batch_size == 0` there is one batch (none
/// when `n == 0`).
pub proof fn lemma_chunk_sizes(n: nat, batch_size: nat)
    ensures
        total(chunk_sizes(n, batch_size)) == n,
        forall|i: int| 0 <= i < chunk_sizes(n, batch_size).len() ==> 1 <= #[trigger] chunk_sizes(n, batch_size)[i],
        batch_size > 0 ==> forall|i: int| 0 <= i < chunk_sizes(n, batch_size).len() ==> #[trigger] chunk_sizes(n, batch_size)[i] <= batch_size,
        batch_size > 0 ==> forall|i: int| 0 <= i < chunk_sizes(n, batch_size).len() - 1 ==> #[trigger] chunk_sizes(n, batch_size)[i] == batch_size,
        batch_size > 0 ==> chunk_sizes(n, batch_size).len() == (n + batch_size - 1) / batch_size as int,
        batch_size == 0 ==> chunk_sizes(n, batch_size).len() == (if n == 0 { 0nat } else { 1nat }),
    decreases n,
{
    let sizes = chunk_sizes(n, batch_size);
    if n == 0 {
        if batch_size > 0 {
            assert((batch_size - 1) / batch_size as int == 0) by (nonlinear_arith)
                requires batch_size > 0;
        }
    } else {
        let c = chunk_len(n, batch_size);
        let rest = chunk_sizes((n - c) as nat, batch_size);
        lemma_chunk_sizes((n - c) as nat, batch_size);
        assert(sizes.drop_first() =~= rest);
        assert forall|i: int| 0 <= i < sizes.len() implies 1 <= #[trigger] sizes[i] by {
            if i > 0 {
                assert(sizes[i] == rest[i - 1]);
            }
        }
        if batch_size > 0 {
            assert forall|i: int| 0 <= i < sizes.len() implies #[trigger] sizes[i] <= batch_size by {
                if i > 0 {
                    assert(sizes[i] == rest[i - 1]);
                }
            }
            assert forall|i: int| 0 <= i < sizes.len() - 1 implies #[trigger] sizes[i] == batch_size by {
                if i > 0 {
                    assert(sizes[i] == rest[i - 1]);
                } else {
                    assert(rest.len() > 0);
                }
            }
            if n <= batch_size {
                assert((n + batch_size - 1) / batch_size as int == 1) by (nonlinear_arith)
                    requires 0 < n <= batch_size;
                assert(rest.len() == 0);
            } else {
                let m = n - batch_size;
                assert((n + batch_size - 1) / batch_size as int == (m + batch_size - 1) / batch_size as int + 1) by (nonlinear_arith)
                    requires batch_size > 0, m > 0, n == m + batch_size;
            }
        } else {
            assert(rest.len() == 0);
        }
    }
}

/// The `IN` groups of [`select_by_ids_sql`] hold the placeholders `start .. start + remaining`
/// each exactly once and in order, in groups of the batch sizes: so the ids bound in their
/// given order land one per placeholder.
pub proof fn lemma_placeholder_groups<DB: FormatPlaceholder>(start: nat, remaining: nat, batch_size: nat)
    ensures
        placeholder_groups::<DB>(start, remaining, batch_size).flatten() == placeholder_seq::<DB>(start, remaining),
        placeholder_groups::<DB>(start, remaining, batch_size).map_values(|g: Seq<Seq<char>>| g.len())
            == chunk_sizes(remaining, batch_size),
    decreases remaining,
{
    let groups = placeholder_groups::<DB>(start, remaining, batch_size);
    if remaining == 0 {
        assert(groups.map_values(|g: Seq<Seq<char>>| g.len()) =~= chunk_sizes(remaining, batch_size));
        assert(groups.flatten() =~= placeholder_seq::<DB>(start, remaining));
    } else {
        let c = chunk_len(remaining, batch_size);
        let rest = placeholder_groups::<DB>(start + c, (remaining - c) as nat, batch_size);
        lemma_placeholder_groups::<DB>(start + c, (remaining - c) as nat, batch_size);
        assert(groups.drop_first() =~= rest);
        assert(groups.flatten() == placeholder_seq::<DB>(start, c) + rest.flatten());
        assert(placeholder_seq::<DB>(start, c) + placeholder_seq::<DB>(start + c, (remaining - c) as nat)
            =~= placeholder_seq::<DB>(start, remaining));
        assert(groups.map_values(|g: Seq<Seq<char>>| g.len())
            =~= seq![c] + rest.map_values(|g: Seq<Seq<char>>| g.len()));
    }
}

/// The placeholders of the value tuples of a many-row insert, in tuple order.
pub open spec fn tuple_placeholders<DB: FormatPlaceholder>(rows: nat, per_row: nat) -> Seq<Seq<Seq<char>>> {
    Seq::new(rows, |r: int| placeholder_seq::<DB>(r as nat * per_row, per_row))
}

/// The value tuples of [`insert_many_sql`] hold the placeholders `0 .. rows * per_row` each
/// exactly once and in order, `per_row` per tuple: binding the rows one after the other, each
/// in column order, puts every value on its own placeholder.
pub proof fn lemma_tuple_placeholders<DB: FormatPlaceholder>(rows: nat, per_row: nat)
    ensures
        tuple_placeholders::<DB>(rows, per_row).flatten() == placeholder_seq::<DB>(0, rows * per_row),
    decreases rows,
{
    if rows == 0 {
        assert(tuple_placeholders::<DB>(rows, per_row).flatten() =~= placeholder_seq::<DB>(0, rows * per_row));
    } else {
        let r = (rows - 1) as nat;
        lemma_tuple_placeholders::<DB>(r, per_row);
        assert(tuple_placeholders::<DB>(rows, per_row) =~= tuple_placeholders::<DB>(r, per_row).push(
            placeholder_seq::<DB>(r * per_row, per_row)));
        tuple_placeholders::<DB>(r, per_row).lemma_flatten_push(placeholder_seq::<DB>(r * per_row, per_row));
        assert(rows * per_row == r * per_row + per_row) by (nonlinear_arith)
            requires rows == r + 1;
        assert(placeholder_seq::<DB>(0, r * per_row) + placeholder_seq::<DB>(r * per_row, per_row)
            =~= placeholder_seq::<DB>(0, rows * per_row));
    }
}

} // verus!
