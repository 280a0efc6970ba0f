//! Placeholder syntax of each database, placeholder lists, and the query-result accessors that
//! the CRUD helpers read.

use vstd::prelude::*;
use vstd::string::*;
use crate::text::{decimal, decimal_string, digit_char, join};

verus! {

#[verifier::external_type_specification]
#[verifier::external_body]
pub struct ExSqlite(sqlx::Sqlite);

#[verifier::external_type_specification]
#[verifier::external_body]
pub struct ExMySql(sqlx::MySql);

#[verifier::external_type_specification]
#[verifier::external_body]
pub struct ExPostgres(sqlx::Postgres);

#[verifier::external_type_specification]
#[verifier::external_body]
pub struct ExSqliteQueryResult(sqlx::sqlite::SqliteQueryResult);

#[verifier::external_type_specification]
#[verifier::external_body]
pub struct ExMySqlQueryResult(sqlx::mysql::MySqlQueryResult);

#[verifier::external_type_specification]
#[verifier::external_body]
pub struct ExPgQueryResult(sqlx::postgres::PgQueryResult);

/// How a database writes the placeholder for a bound argument.
pub trait FormatPlaceholder {
    /// The text of the placeholder with index `idx` (counted from 0).
    spec fn spec_placeholder(idx: nat) -> Seq<char>;

    /// # Arguments
    /// - `idx`: The index of the placeholder starting at 0
    fn format_placeholder(idx: usize) -> (res: String)
        ensures
            res@ == Self::spec_placeholder(idx as nat),
    ;
}

/// The number of rows a statement changed, as the database reported it.
pub trait RowsAffected {
    fn rows_affected(&self) -> u64;
}

/// The id the database assigned to the row that a statement inserted last.
pub trait LastInsertedRowId {
    fn last_insert_rowid(&self) -> i64;
}

impl FormatPlaceholder for sqlx::Sqlite {
    open spec fn spec_placeholder(idx: nat) -> Seq<char> {
        seq!['?']
    }

    fn format_placeholder(_idx: usize) -> (res: String) {
        proof { reveal_strlit("?"); }
        String::from_str("?")
    }
}

impl FormatPlaceholder for sqlx::MySql {
    open spec fn spec_placeholder(idx: nat) -> Seq<char> {
        seq!['?']
    }

    fn format_placeholder(_idx: usize) -> (res: String) {
        proof { reveal_strlit("?"); }
        String::from_str("?")
    }
}

impl FormatPlaceholder for sqlx::Postgres {
    /// `$1`, `$2`, ...: Postgres counts its parameters from 1.
    open spec fn spec_placeholder(idx: nat) -> Seq<char> {
        seq!['$'] + decimal(idx + 1)
    }

    fn format_placeholder(idx: usize) -> (res: String) {
        proof { reveal_strlit("$"); }
        let mut res = String::from_str("$");
        let n: u128 = idx as u128 + 1;
        let digits = decimal_string(n);
        res.append(digits.as_str());
        res
    }
}

/// Calls `sqlx::sqlite::SqliteQueryResult::rows_affected`. The count is whatever the database
/// reported, so nothing is claimed of it.
#[verifier::external_body]
fn sqlite_rows_affected(result: &sqlx::sqlite::SqliteQueryResult) -> u64 {
    result.rows_affected()
}

/// Calls `sqlx::sqlite::SqliteQueryResult::last_insert_rowid`. The id is whatever the database
/// assigned, so nothing is claimed of it.
#[verifier::external_body]
fn sqlite_last_insert_rowid(result: &sqlx::sqlite::SqliteQueryResult) -> i64 {
    result.last_insert_rowid()
}

/// Calls `sqlx::mysql::MySqlQueryResult::rows_affected`. The count is whatever the server
/// reported, so nothing is claimed of it.
#[verifier::external_body]
fn mysql_rows_affected(result: &sqlx::mysql::MySqlQueryResult) -> u64 {
    result.rows_affected()
}

/// Calls `sqlx::mysql::MySqlQueryResult::last_insert_id`. The id is whatever the server
/// assigned, so nothing is claimed of it.
#[verifier::external_body]
fn mysql_last_insert_id(result: &sqlx::mysql::MySqlQueryResult) -> u64 {
    result.last_insert_id()
}

/// Calls `sqlx::postgres::PgQueryResult::rows_affected`. The count is whatever the server
/// reported, so nothing is claimed of it.
#[verifier::external_body]
fn pg_rows_affected(result: &sqlx::postgres::PgQueryResult) -> u64 {
    result.rows_affected()
}

impl RowsAffected for sqlx::sqlite::SqliteQueryResult {
    fn rows_affected(&self) -> u64 {
        sqlite_rows_affected(self)
    }
}

impl LastInsertedRowId for sqlx::sqlite::SqliteQueryResult {
    fn last_insert_rowid(&self) -> i64 {
        sqlite_last_insert_rowid(self)
    }
}

impl RowsAffected for sqlx::mysql::MySqlQueryResult {
    fn rows_affected(&self) -> u64 {
        mysql_rows_affected(self)
    }
}

/// MySQL reports an unsigned id; it is reinterpreted as `i64` (two's complement wrap-around).
pub fn mysql_rowid(id: u64) -> (res: i64)
    ensures
        res == id as i64,
{
    id as i64
}

impl LastInsertedRowId for sqlx::mysql::MySqlQueryResult {
    fn last_insert_rowid(&self) -> i64 {
        mysql_rowid(mysql_last_insert_id(self))
    }
}

impl RowsAffected for sqlx::postgres::PgQueryResult {
    fn rows_affected(&self) -> u64 {
        pg_rows_affected(self)
    }
}

/// The placeholders with indices `start .. start + n`.
pub open spec fn placeholder_seq<DB: FormatPlaceholder>(start: nat, n: nat) -> Seq<Seq<char>> {
    Seq::new(n, |i: int| DB::spec_placeholder((start + i) as nat))
}

/// The placeholders with indices `start .. start + n`, separated by commas.
pub open spec fn placeholder_list<DB: FormatPlaceholder>(start: nat, n: nat) -> Seq<char> {
    join(placeholder_seq::<DB>(start, n), ","@)
}

/// The `n` placeholders with indices `start .. start + n`, separated by commas.
pub fn format_placeholders_from<DB: FormatPlaceholder>(start: usize, n: usize) -> (res: String)
    requires
        start + n <= usize::MAX,
    ensures
        res@ == placeholder_list::<DB>(start as nat, n as nat),
{
    let ghost all = placeholder_seq::<DB>(start as nat, n as nat);
    let mut res = String::new();
    let mut i: usize = 0;
    while i < n
        invariant
            i <= n,
            start + n <= usize::MAX,
            all == placeholder_seq::<DB>(start as nat, n as nat),
            res@ == join(all.take(i as int), ","@),
        decreases n - i,
    {
        if i != 0 {
            res.append(",");
        }
        let p = DB::format_placeholder(start + i);
        res.append(p.as_str());
        assert(all.take(i + 1).drop_last() =~= all.take(i as int));
        i = i + 1;
    }
    assert(all.take(n as int) =~= all);
    res
}

/// # Returns
/// A string of `n` placeholders separated by commas.
pub fn format_placeholders<DB: FormatPlaceholder>(n: usize) -> (res: String)
    ensures
        res@ == placeholder_list::<DB>(0, n as nat),
{
    format_placeholders_from::<DB>(0, n)
}

proof fn lemma_decimal_len(n: nat)
    ensures
        decimal(n).len() >= 1,
        n >= 10 ==> decimal(n).len() >= 2,
    decreases n,
{
    if n >= 10 {
        lemma_decimal_len(n / 10);
    }
}

proof fn lemma_digit_char_injective(a: nat, b: nat)
    requires
        a < 10,
        b < 10,
        digit_char(a) == digit_char(b),
    ensures
        a == b,
{
}

/// Different numbers have different decimal renderings.
proof fn lemma_decimal_injective(n: nat, m: nat)
    requires
        decimal(n) == decimal(m),
    ensures
        n == m,
    decreases n,
{
    lemma_decimal_len(n);
    lemma_decimal_len(m);
    if n < 10 && m < 10 {
        assert(decimal(n) == seq![digit_char(n)]);
        assert(decimal(m) == seq![digit_char(m)]);
        assert(seq![digit_char(n)][0] == seq![digit_char(m)][0]);
        lemma_digit_char_injective(n, m);
    } else if n >= 10 && m >= 10 {
        let dn = decimal(n);
        assert(dn.last() == digit_char(n % 10));
        assert(decimal(m).last() == digit_char(m % 10));
        assert(dn.drop_last() =~= decimal(n / 10));
        assert(decimal(m).drop_last() =~= decimal(m / 10));
        lemma_decimal_injective(n / 10, m / 10);
        lemma_digit_char_injective(n % 10, m % 10);
    } else {
        assert(decimal(n).len() != decimal(m).len());
    }
}

/// Postgres gives every bound argument a placeholder of its own: different indices give
/// different placeholders.
pub proof fn lemma_pg_placeholders_distinct(i: nat, j: nat)
    requires
        i != j,
    ensures
        <sqlx::Postgres as FormatPlaceholder>::spec_placeholder(i) != <sqlx::Postgres as FormatPlaceholder>::spec_placeholder(j),
{
    let pi = <sqlx::Postgres as FormatPlaceholder>::spec_placeholder(i);
    let pj = <sqlx::Postgres as FormatPlaceholder>::spec_placeholder(j);
    if pi == pj {
        assert(pi.drop_first() =~= decimal(i + 1));
        assert(pj.drop_first() =~= decimal(j + 1));
        lemma_decimal_injective(i + 1, j + 1);
    }
}

} // verus!
