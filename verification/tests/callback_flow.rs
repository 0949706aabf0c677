use futures::executor::block_on;
use sqlx::Connection;
use sqlx::Row;
use sqlx::sqlite::SqliteConnection;

use chisel_auth::auth::{
    get_username, handle_callback_complete, handle_callback_request, lookup_user, CallbackStep,
};
use chisel_auth::error::Error;
use chisel_auth::http::{HeaderEntry, HttpRequest};
use chisel_auth::session::SessionStore;
use chisel_auth::sqlval::{SqlStatement, SqlValue};
use chisel_auth::types::builtin_registry;

const PROFILE_PREFIX: &str = "http://localhost:3000/profile?chiselstrike_token=";

fn callback_request(query: Option<&str>) -> HttpRequest {
    HttpRequest {
        path: String::from("/__chiselstrike/auth/callback"),
        query: query.map(String::from),
        headers: Vec::new(),
    }
}

fn run_statement(conn: &mut SqliteConnection, stmt: &SqlStatement) -> Result<(), String> {
    block_on(async {
        let mut q = sqlx::query(sqlx::AssertSqlSafe(stmt.sql.clone()));
        for a in stmt.args.iter() {
            q = match a {
                SqlValue::Text(s) => q.bind(s.clone()),
                SqlValue::Int(n) => q.bind(*n),
                SqlValue::FloatBits(b) => q.bind(f64::from_bits(*b)),
                SqlValue::Bool(b) => q.bind(*b),
                SqlValue::Null => q.bind(Option::<String>::None),
                SqlValue::Blob(v) => q.bind(v.clone()),
            };
        }
        q.execute(&mut *conn).await.map(|_| ()).map_err(|e| e.to_string())
    })
}

fn user_table(conn: &mut SqliteConnection) {
    block_on(
        sqlx::query("CREATE TABLE oauth_user (id TEXT, username TEXT)").execute(&mut *conn),
    )
    .unwrap();
}

#[test]
fn callback_without_query_is_bad_request() {
    let registry = builtin_registry();
    let req = callback_request(None);
    match handle_callback_request(&registry, &req).unwrap() {
        CallbackStep::Respond(resp) => {
            assert_eq!(resp.status, 400);
            assert!(resp.body.contains("parameter missing"));
        },
        _ => panic!("expected a direct response"),
    }
}

#[test]
fn callback_without_user_key_is_bad_request() {
    let registry = builtin_registry();
    let req = callback_request(Some("name=alice"));
    match handle_callback_request(&registry, &req).unwrap() {
        CallbackStep::Respond(resp) => {
            assert_eq!(resp.status, 400);
            assert!(resp.body.contains("parameter value missing"));
        },
        _ => panic!("expected a direct response"),
    }
}

#[test]
fn callback_with_empty_value_is_bad_request() {
    let registry = builtin_registry();
    let req = callback_request(Some("user="));
    match handle_callback_request(&registry, &req).unwrap() {
        CallbackStep::Respond(resp) => {
            assert_eq!(resp.status, 400);
            assert!(resp.body.contains("value empty"));
        },
        _ => panic!("expected a direct response"),
    }
}

#[test]
fn callback_with_dangling_escape_is_bad_request() {
    let registry = builtin_registry();
    let req = callback_request(Some("user=ali%2"));
    match handle_callback_request(&registry, &req).unwrap() {
        CallbackStep::Respond(resp) => {
            assert_eq!(resp.status, 400);
            assert!(resp.body.contains("value malformed"));
        },
        _ => panic!("expected a direct response"),
    }
}

#[test]
fn callback_decodes_escaped_username() {
    let registry = builtin_registry();
    let req = callback_request(Some("user=a%20b%41"));
    match handle_callback_request(&registry, &req).unwrap() {
        CallbackStep::InsertUser { username, .. } => assert_eq!(username, "a bA"),
        _ => panic!("expected an insert step"),
    }
}

#[test]
fn callback_persists_user_and_redirects_with_token() {
    let registry = builtin_registry();
    let mut store = SessionStore::new();
    let mut conn = block_on(SqliteConnection::connect("sqlite::memory:")).unwrap();
    user_table(&mut conn);

    let req = callback_request(Some("user=alice"));
    let (username, statement) = match handle_callback_request(&registry, &req).unwrap() {
        CallbackStep::InsertUser { username, statement } => (username, statement),
        _ => panic!("expected an insert step"),
    };
    assert_eq!(username, "alice");

    let outcome = run_statement(&mut conn, &statement);
    assert_eq!(outcome, Ok(()));
    let rows =
        block_on(sqlx::query("SELECT username FROM oauth_user").fetch_all(&mut conn)).unwrap();
    assert_eq!(rows.len(), 1);
    assert_eq!(rows[0].get::<String, _>("username"), "alice");

    let resp = handle_callback_complete(&mut store, &username, outcome).unwrap();
    assert_eq!(resp.status, 307);
    assert_eq!(resp.headers.len(), 1);
    assert_eq!(resp.headers[0].name, "Location");
    let location = resp.headers[0].value.clone();
    let token = location.strip_prefix(PROFILE_PREFIX).unwrap();
    assert_eq!(store.get_username(token).unwrap(), "alice");
}

#[test]
fn callback_storage_failure_propagates() {
    let mut store = SessionStore::new();
    let r = handle_callback_complete(&mut store, "alice", Err(String::from("unique violation")));
    match r {
        Err(Error::StorageError(m)) => assert_eq!(m, "unique violation"),
        _ => panic!("expected a storage error"),
    }
    // Nothing was minted for the failed insert.
    assert_eq!(store.get_username(""), Err(Error::TokenNotFound));
}

#[test]
fn lookup_of_unminted_token_propagates_failure() {
    let store = SessionStore::new();
    let req = HttpRequest {
        path: String::from("/__chiselstrike/auth/user/deadbeef"),
        query: None,
        headers: Vec::new(),
    };
    assert!(matches!(lookup_user(&store, &req), Err(Error::TokenNotFound)));
}

#[test]
fn lookup_on_wrong_path_is_malformed() {
    let store = SessionStore::new();
    let req =
        HttpRequest { path: String::from("/elsewhere"), query: None, headers: Vec::new() };
    assert!(matches!(lookup_user(&store, &req), Err(Error::MalformedRequest)));
}

#[test]
fn lookup_of_minted_token_returns_username() {
    let mut store = SessionStore::new();
    let token = store.new_session_token("alice").unwrap();
    let req = HttpRequest {
        path: format!("/__chiselstrike/auth/user/{}", token),
        query: None,
        headers: Vec::new(),
    };
    let resp = lookup_user(&store, &req).unwrap();
    assert_eq!(resp.status, 200);
    assert_eq!(resp.body, "alice");
}

fn request_with_header(name: &str, value: &str) -> HttpRequest {
    HttpRequest {
        path: String::from("/anything"),
        query: None,
        headers: vec![HeaderEntry { name: String::from(name), value: String::from(value) }],
    }
}

#[test]
fn credential_extractor_resolves_valid_header() {
    let mut store = SessionStore::new();
    let token = store.new_session_token("alice").unwrap();
    let req = request_with_header("ChiselStrikeToken", &token);
    assert_eq!(get_username(&store, &req), Some(String::from("alice")));
}

#[test]
fn credential_extractor_treats_missing_header_as_anonymous() {
    let store = SessionStore::new();
    let req =
        HttpRequest { path: String::from("/anything"), query: None, headers: Vec::new() };
    assert_eq!(get_username(&store, &req), None);
}

#[test]
fn credential_extractor_swallows_invalid_token() {
    let mut store = SessionStore::new();
    let _ = store.new_session_token("alice").unwrap();
    let req = request_with_header("ChiselStrikeToken", "not-a-token");
    assert_eq!(get_username(&store, &req), None);
}
