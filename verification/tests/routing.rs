use chisel_auth::auth::{init, HandlerKind};
use chisel_auth::error::Error;
use chisel_auth::routes::RouteTable;

#[test]
fn exact_match_wins_over_prefix_match() {
    let mut table: RouteTable<u32> = RouteTable::new();
    table.add_route(String::from("/api/"), 1).unwrap();
    table.add_route(String::from("/api/info"), 2).unwrap();
    assert_eq!(table.dispatch("/api/info"), Some(2));
    assert_eq!(table.dispatch("/api/other"), Some(1));
}

#[test]
fn longest_prefix_wins_among_prefix_routes() {
    let mut table: RouteTable<u32> = RouteTable::new();
    table.add_route(String::from("/"), 1).unwrap();
    table.add_route(String::from("/api/"), 2).unwrap();
    table.add_route(String::from("/api/v2/"), 3).unwrap();
    assert_eq!(table.dispatch("/api/v2/users"), Some(3));
    assert_eq!(table.dispatch("/api/users"), Some(2));
    assert_eq!(table.dispatch("/health"), Some(1));
}

#[test]
fn no_route_matches_unknown_path() {
    let mut table: RouteTable<u32> = RouteTable::new();
    table.add_route(String::from("/api/"), 1).unwrap();
    assert_eq!(table.dispatch("/ap"), None);
    assert_eq!(table.dispatch("/apix"), None);
}

#[test]
fn duplicate_registration_is_a_configuration_error() {
    let mut table: RouteTable<u32> = RouteTable::new();
    table.add_route(String::from("/api/"), 1).unwrap();
    assert!(matches!(table.add_route(String::from("/api/"), 2), Err(Error::RouteConflict)));
    // The table is unchanged: the first handler still serves the prefix.
    assert_eq!(table.dispatch("/api/x"), Some(1));
}

#[test]
fn init_registers_both_auth_routes() {
    let mut table: RouteTable<HandlerKind> = RouteTable::new();
    init(&mut table).unwrap();
    assert_eq!(
        table.dispatch("/__chiselstrike/auth/callback"),
        Some(HandlerKind::Callback),
    );
    assert_eq!(
        table.dispatch("/__chiselstrike/auth/user/sometoken"),
        Some(HandlerKind::LookupUser),
    );
    assert_eq!(table.dispatch("/__chiselstrike/other"), None);
    // Registering the system routes twice is refused.
    assert!(matches!(init(&mut table), Err(Error::RouteConflict)));
}
