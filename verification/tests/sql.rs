use crudly::executor::{columns_with_id, comma_delimited_columns_with_id, pg_insert_sql, select_all_with_id_sql};
use crudly::placeholder::{
    FormatPlaceholder, LastInsertedRowId, RowsAffected, format_placeholders, format_placeholders_from, mysql_rowid,
};
use crudly::sql::{
    comma_delimited_columns, delete_all_sql, delete_by_id_sql, id_exists_sql, insert_many_sql, insert_sql,
    select_all_no_id_sql, select_all_sql, select_by_id_sql, select_by_ids_sql, split_batches, update_by_id_sql,
    was_affected,
};
use crudly::text::{decimal_string, join_strings, quote, quote_columns};
use crudly::traits::{HasColumns, HasId, Schema};
use sqlx::{MySql, Postgres, Sqlite};

struct User {
    id: i64,
}

impl Schema for User {
    fn table_name() -> &'static str {
        "users"
    }
    fn columns() -> Vec<&'static str> {
        vec!["id", "name"]
    }
}

impl HasColumns for User {
    fn columns() -> Vec<&'static str> {
        vec!["name", "email"]
    }
}

impl HasId for User {
    type Id = i64;
    fn id_column() -> &'static str {
        "id"
    }
    fn id(&self) -> i64 {
        self.id
    }
}

#[test]
fn placeholders_per_database() {
    assert_eq!(Sqlite::format_placeholder(7), "?");
    assert_eq!(MySql::format_placeholder(0), "?");
    assert_eq!(Postgres::format_placeholder(0), "$1");
    assert_eq!(Postgres::format_placeholder(9), "$10");
    assert_eq!(Postgres::format_placeholder(usize::MAX), "$18446744073709551616");
    assert_eq!(format_placeholders::<Sqlite>(3), "?,?,?");
    assert_eq!(format_placeholders::<Postgres>(3), "$1,$2,$3");
    assert_eq!(format_placeholders::<Postgres>(0), "");
    assert_eq!(format_placeholders_from::<Postgres>(4, 2), "$5,$6");
    assert_ne!(Postgres::format_placeholder(1), Postgres::format_placeholder(10));
    assert_ne!(Postgres::format_placeholder(0), Postgres::format_placeholder(9));
}

#[test]
fn text_helpers() {
    assert_eq!(decimal_string(0), "0");
    assert_eq!(decimal_string(1234567890), "1234567890");
    assert_eq!(quote("a b"), "\"a b\"");
    assert_eq!(quote_columns(&vec!["a", "b"]), "\"a\",\"b\"");
    assert_eq!(quote_columns(&vec![]), "");
    assert_eq!(join_strings(&vec!["x".to_string(), "y".to_string(), "z".to_string()], " OR "), "x OR y OR z");
}

#[test]
fn columns_of_schema() {
    assert_eq!(comma_delimited_columns::<User>(), "\"id\",\"name\"");
    assert_eq!(comma_delimited_columns_with_id::<User>(), "\"id\",\"name\",\"email\"");
    assert_eq!(columns_with_id("id", vec!["a"]), vec!["id", "a"]);
    assert_eq!(User { id: 3 }.id(), 3);
}

#[test]
fn select_statements() {
    let cols = vec!["id", "name"];
    assert_eq!(select_all_sql("users", &cols, "id"), "SELECT \"id\",\"name\" FROM users ORDER BY id ASC;");
    assert_eq!(select_all_no_id_sql("student_x_course", &vec!["student_id", "course_id"]),
        "SELECT \"student_id\",\"course_id\" FROM student_x_course;");
    assert_eq!(select_by_id_sql::<Sqlite>("users", &cols, "id"), "SELECT \"id\",\"name\" FROM users WHERE id = ?;");
    assert_eq!(select_by_id_sql::<Postgres>("users", &cols, "id"), "SELECT \"id\",\"name\" FROM users WHERE id = $1;");
    assert_eq!(id_exists_sql::<Postgres>("users", "id"), "SELECT 1 FROM users WHERE \"id\" = $1;");
    assert_eq!(select_all_with_id_sql("users", "id", &vec!["name"]), "SELECT \"id\",\"name\" FROM users;");
}

#[test]
fn select_by_ids_groups() {
    let cols = vec!["id", "name"];
    assert_eq!(select_by_ids_sql::<Postgres>("users", &cols, "id", 0, 2), None);
    assert_eq!(
        select_by_ids_sql::<Postgres>("users", &cols, "id", 5, 2).unwrap(),
        "SELECT \"id\",\"name\" FROM users WHERE id IN ($1,$2) OR id IN ($3,$4) OR id IN ($5) ORDER BY id ASC;"
    );
    assert_eq!(
        select_by_ids_sql::<Sqlite>("users", &cols, "id", 3, 0).unwrap(),
        "SELECT \"id\",\"name\" FROM users WHERE id IN (?,?,?) ORDER BY id ASC;"
    );
    assert_eq!(
        select_by_ids_sql::<Postgres>("users", &cols, "id", 2, 10).unwrap(),
        "SELECT \"id\",\"name\" FROM users WHERE id IN ($1,$2) ORDER BY id ASC;"
    );
}

#[test]
fn write_statements() {
    assert_eq!(delete_all_sql("users"), "DELETE FROM users;");
    assert_eq!(delete_by_id_sql::<Postgres>("users", "id"), "DELETE FROM users WHERE id = $1");
    assert_eq!(insert_sql::<Sqlite>("users", &vec!["id", "name"]), "INSERT INTO users (\"id\",\"name\") VALUES (?,?)");
    assert_eq!(insert_sql::<Postgres>("users", &vec!["name"]), "INSERT INTO users (\"name\") VALUES ($1)");
    assert_eq!(
        insert_many_sql::<Postgres>("users", &vec!["a", "b"], 2),
        "INSERT INTO users (\"a\",\"b\") VALUES ($1,$2),($3,$4)"
    );
    assert_eq!(insert_many_sql::<Sqlite>("users", &vec!["a"], 3), "INSERT INTO users (\"a\") VALUES (?),(?),(?)");
    assert_eq!(
        update_by_id_sql::<Postgres>("users", "id", &vec!["name", "email"]),
        "UPDATE users SET \"name\"=$1,\"email\"=$2 WHERE id = $3"
    );
    assert_eq!(update_by_id_sql::<MySql>("users", "id", &vec!["name"]), "UPDATE users SET \"name\"=? WHERE id = ?");
    assert_eq!(
        pg_insert_sql("users", "id", &vec!["name"]),
        "INSERT INTO users (\"name\") VALUES ($1) RETURNING \"id\""
    );
}

#[test]
fn batches_cover_every_row_once() {
    assert_eq!(split_batches(vec![1, 2, 3, 4, 5], 2), vec![vec![1, 2], vec![3, 4], vec![5]]);
    assert_eq!(split_batches(vec![1, 2, 3], 0), vec![vec![1, 2, 3]]);
    assert_eq!(split_batches(vec![1, 2, 3], 3), vec![vec![1, 2, 3]]);
    assert_eq!(split_batches(vec![1, 2], 10), vec![vec![1, 2]]);
    assert_eq!(split_batches(Vec::<i32>::new(), 2), Vec::<Vec<i32>>::new());
}

#[test]
fn outcomes() {
    assert!(was_affected(1));
    assert!(!was_affected(0));
    assert_eq!(mysql_rowid(42), 42);
    assert_eq!(mysql_rowid(u64::MAX), -1);
}

#[test]
fn query_results_read() {
    let sqlite = sqlx::sqlite::SqliteQueryResult::default();
    assert_eq!(RowsAffected::rows_affected(&sqlite), 0);
    assert_eq!(LastInsertedRowId::last_insert_rowid(&sqlite), 0);
    let mysql = sqlx::mysql::MySqlQueryResult::default();
    assert_eq!(RowsAffected::rows_affected(&mysql), 0);
    assert_eq!(LastInsertedRowId::last_insert_rowid(&mysql), 0);
    let pg = sqlx::postgres::PgQueryResult::default();
    assert_eq!(RowsAffected::rows_affected(&pg), 0);
    assert!(!was_affected(RowsAffected::rows_affected(&pg)));
}
