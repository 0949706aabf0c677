use futures::executor::block_on;
use sqlx::Connection;
use sqlx::Row;
use sqlx::sqlite::SqliteConnection;

use chisel_auth::auth::{get_oauth_user_type, user_id_from_row, user_id_query};
use chisel_auth::error::Error;
use chisel_auth::query::{fetch_one, insert_row_statement};
use chisel_auth::sqlval::{RowEntry, SqlStatement, SqlValue};
use chisel_auth::types::{builtin_registry, TypeRegistry};

fn entry(column: &str, value: &str) -> RowEntry {
    RowEntry { column: String::from(column), value: SqlValue::Text(String::from(value)) }
}

fn run_statement(conn: &mut SqliteConnection, stmt: &SqlStatement) -> Result<(), String> {
    block_on(async {
        let mut q = sqlx::query(sqlx::AssertSqlSafe(stmt.sql.clone()));
        for a in stmt.args.iter() {
            q = match a {
                SqlValue::Text(s) => q.bind(s.clone()),
                SqlValue::Int(n) => q.bind(*n),
                SqlValue::FloatBits(b) => q.bind(f64::from_bits(*b)),
                SqlValue::Bool(b) => q.bind(*b),
                SqlValue::Null => q.bind(Option::<String>::None),
                SqlValue::Blob(v) => q.bind(v.clone()),
            };
        }
        q.execute(&mut *conn).await.map(|_| ()).map_err(|e| e.to_string())
    })
}

fn memory_db() -> SqliteConnection {
    let mut conn = block_on(SqliteConnection::connect("sqlite::memory:")).unwrap();
    block_on(
        sqlx::query("CREATE TABLE oauth_user (id TEXT, username TEXT)").execute(&mut conn),
    )
    .unwrap();
    conn
}

fn user_count(conn: &mut SqliteConnection) -> i64 {
    let row =
        block_on(sqlx::query("SELECT COUNT(*) AS n FROM oauth_user").fetch_one(&mut *conn))
            .unwrap();
    row.get::<i64, _>("n")
}

#[test]
fn insert_statement_text_is_parameterized() {
    let registry = builtin_registry();
    let ot = get_oauth_user_type(&registry).unwrap();
    let values = vec![entry("username", "alice")];
    let stmt = insert_row_statement(ot, &values).unwrap();
    assert_eq!(stmt.sql, "INSERT INTO oauth_user (username) VALUES (?)");
    assert_eq!(stmt.args.len(), 1);
    match &stmt.args[0] {
        SqlValue::Text(s) => assert_eq!(s, "alice"),
        _ => panic!("expected a text argument"),
    }
}

#[test]
fn insert_with_all_declared_fields_round_trips() {
    let registry = builtin_registry();
    let ot = get_oauth_user_type(&registry).unwrap();
    let mut conn = memory_db();
    let values = vec![entry("id", "u1"), entry("username", "bob")];
    let stmt = insert_row_statement(ot, &values).unwrap();
    assert_eq!(stmt.sql, "INSERT INTO oauth_user (id, username) VALUES (?, ?)");
    assert_eq!(run_statement(&mut conn, &stmt), Ok(()));
    let rows = block_on(
        sqlx::query("SELECT id, username FROM oauth_user").fetch_all(&mut conn),
    )
    .unwrap();
    assert_eq!(rows.len(), 1);
    assert_eq!(rows[0].get::<String, _>("id"), "u1");
    assert_eq!(rows[0].get::<String, _>("username"), "bob");
}

#[test]
fn undeclared_key_is_schema_mismatch_with_no_partial_write() {
    let registry = builtin_registry();
    let ot = get_oauth_user_type(&registry).unwrap();
    let mut conn = memory_db();
    let values = vec![entry("username", "carol"), entry("role", "admin")];
    match insert_row_statement(ot, &values) {
        Err(Error::SchemaMismatch) => {},
        _ => panic!("expected a schema mismatch"),
    }
    assert_eq!(user_count(&mut conn), 0);
}

#[test]
fn sql_text_never_holds_the_values() {
    let registry = builtin_registry();
    let ot = get_oauth_user_type(&registry).unwrap();
    let hostile = "x'); DROP TABLE oauth_user; --";
    let values = vec![entry("username", hostile)];
    let stmt = insert_row_statement(ot, &values).unwrap();
    assert!(!stmt.sql.contains(hostile));
    let mut conn = memory_db();
    assert_eq!(run_statement(&mut conn, &stmt), Ok(()));
    assert_eq!(user_count(&mut conn), 1);
}

#[test]
fn user_id_query_resolves_the_inserted_row() {
    let registry = builtin_registry();
    let mut conn = memory_db();
    block_on(
        sqlx::query("INSERT INTO oauth_user (id, username) VALUES ('u7', 'dave')")
            .execute(&mut conn),
    )
    .unwrap();
    let stmt = user_id_query(&registry, "dave").unwrap();
    assert_eq!(stmt.sql, "SELECT id FROM oauth_user WHERE username=$1");
    let fetched = block_on(async {
        let mut q = sqlx::query(sqlx::AssertSqlSafe(stmt.sql.clone()));
        for a in stmt.args.iter() {
            q = match a {
                SqlValue::Text(s) => q.bind(s.clone()),
                _ => panic!("expected only text arguments"),
            };
        }
        q.fetch_all(&mut conn).await.map_err(|e| e.to_string())
    })
    .unwrap();
    let rows: Vec<Vec<RowEntry>> = fetched
        .iter()
        .map(|row| vec![entry("id", &row.get::<String, _>("id"))])
        .collect();
    let row = fetch_one(Ok(rows)).unwrap();
    assert_eq!(user_id_from_row(&row).unwrap(), "u7");
}

#[test]
fn user_id_query_without_user_type_fails() {
    let registry = TypeRegistry::new();
    match user_id_query(&registry, "dave") {
        Err(Error::TypeNotFound) => {},
        _ => panic!("expected a missing type"),
    }
}

#[test]
fn fetch_one_rejects_zero_and_many_rows() {
    match fetch_one(Ok(Vec::new())) {
        Err(Error::NotFound) => {},
        _ => panic!("expected not found"),
    }
    let two = vec![vec![entry("id", "a")], vec![entry("id", "b")]];
    match fetch_one(Ok(two)) {
        Err(Error::AmbiguousResult) => {},
        _ => panic!("expected an ambiguous result"),
    }
    match fetch_one(Err(String::from("connection reset"))) {
        Err(Error::StorageError(m)) => assert_eq!(m, "connection reset"),
        _ => panic!("expected a storage error"),
    }
    let one = vec![vec![entry("id", "a")]];
    let row = fetch_one(Ok(one)).unwrap();
    assert_eq!(user_id_from_row(&row).unwrap(), "a");
}

#[test]
fn user_id_from_row_requires_a_text_id() {
    let missing = vec![entry("other", "x")];
    assert!(matches!(user_id_from_row(&missing), Err(Error::NotFound)));
    let not_text =
        vec![RowEntry { column: String::from("id"), value: SqlValue::Int(3) }];
    assert!(matches!(user_id_from_row(&not_text), Err(Error::NotFound)));
}

#[test]
fn error_messages_name_each_failure() {
    assert_eq!(Error::MissingParameter.message(), "parameter missing");
    assert_eq!(Error::EmptyParameter.message(), "parameter value empty");
    assert_eq!(Error::MalformedRequest.message(), "malformed request");
    assert_eq!(Error::TypeNotFound.message(), "type not found");
    assert_eq!(Error::SchemaMismatch.message(), "schema mismatch");
    assert_eq!(Error::TokenNotFound.message(), "token not found");
    assert_eq!(Error::AmbiguousResult.message(), "ambiguous result");
    assert_eq!(Error::NotFound.message(), "not found");
    assert_eq!(Error::RouteConflict.message(), "route conflict");
    assert_eq!(Error::StorageError(String::from("boom")).message(), "boom");
}
