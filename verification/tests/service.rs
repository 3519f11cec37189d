use shindaggers::routes::{
    effective_name, health_response, lookup_response, route_request, LookupError, Route,
};
use shindaggers::timestamp::Timestamp;
use shindaggers::user::User;

fn ts(year: u16, month: u8, day: u8, hour: u8, minute: u8, second: u8) -> Timestamp {
    Timestamp { year, month, day, hour, minute, second }
}

fn chandy_man() -> User {
    User {
        id: 1,
        name: String::from("ChandyMan"),
        twitch_id: String::from("123"),
        twitch_login: String::from("chandyman"),
        created_at: ts(2023, 1, 1, 0, 0, 0),
        updated_at: ts(2023, 1, 2, 0, 0, 0),
    }
}

const CHANDY_JSON: &str = "{\"id\":1,\"name\":\"ChandyMan\",\"twitch_id\":\"123\",\"twitch_login\":\"chandyman\",\"created_at\":\"2023-01-01T00:00:00Z\",\"updated_at\":\"2023-01-02T00:00:00Z\"}";

#[test]
fn health_check_works() {
    let response = health_response();
    assert!(response.status == 200);
    assert_eq!(response.body, "");
    assert!(matches!(route_request("/health"), Route::Health));
}

#[test]
fn found_row_returns_200_with_exact_json() {
    let response = lookup_response(Ok(chandy_man()));
    assert_eq!(response.status, 200);
    assert_eq!(response.body, CHANDY_JSON);
}

#[test]
fn missing_row_returns_404_empty() {
    let response = lookup_response(Err(LookupError::NotFound));
    assert_eq!(response.status, 404);
    assert_eq!(response.body, "");
}

#[test]
fn store_error_returns_500_empty() {
    let response = lookup_response(Err(LookupError::Other));
    assert_eq!(response.status, 500);
    assert_eq!(response.body, "");
}

#[test]
fn repeated_lookup_is_idempotent() {
    let first = lookup_response(Ok(chandy_man()));
    let second = lookup_response(Ok(chandy_man()));
    assert_eq!(first.status, second.status);
    assert_eq!(first.body, second.body);
    let first = lookup_response(Err(LookupError::NotFound));
    let second = lookup_response(Err(LookupError::NotFound));
    assert_eq!(first.status, second.status);
    assert_eq!(first.body, second.body);
}

#[test]
fn distinct_rows_get_distinct_correct_bodies() {
    let other = User {
        id: 2,
        name: String::from("NoSuchUser"),
        twitch_id: String::from("456"),
        twitch_login: String::from("nosuchuser"),
        created_at: ts(2024, 2, 29, 12, 30, 45),
        updated_at: ts(2024, 3, 1, 1, 2, 3),
    };
    let body_a = lookup_response(Ok(chandy_man())).body;
    let body_b = lookup_response(Ok(other)).body;
    assert_eq!(body_a, CHANDY_JSON);
    assert_eq!(
        body_b,
        "{\"id\":2,\"name\":\"NoSuchUser\",\"twitch_id\":\"456\",\"twitch_login\":\"nosuchuser\",\"created_at\":\"2024-02-29T12:30:45Z\",\"updated_at\":\"2024-03-01T01:02:03Z\"}"
    );
    assert_ne!(body_a, body_b);
}

#[test]
fn route_table_matches_single_segments_only() {
    match route_request("/ChandyMan") {
        Route::Lookup(name) => assert_eq!(name, "ChandyMan"),
        _ => panic!("expected the lookup route"),
    }
    match route_request("/healthx") {
        Route::Lookup(name) => assert_eq!(name, "healthx"),
        _ => panic!("expected the lookup route"),
    }
    match route_request("/Health") {
        Route::Lookup(name) => assert_eq!(name, "Health"),
        _ => panic!("expected the lookup route: matching is case-sensitive"),
    }
    assert!(matches!(route_request("/health"), Route::Health));
    assert!(matches!(route_request(""), Route::NoMatch));
    assert!(matches!(route_request("/"), Route::NoMatch));
    assert!(matches!(route_request("health"), Route::NoMatch));
    assert!(matches!(route_request("/a/b"), Route::NoMatch));
    assert!(matches!(route_request("/health/"), Route::NoMatch));
}

#[test]
fn absent_path_parameter_falls_back_to_default() {
    assert_eq!(effective_name(None), "ChandyMan");
    assert_eq!(effective_name(Some("bob")), "bob");
    assert_eq!(effective_name(Some("")), "");
}
