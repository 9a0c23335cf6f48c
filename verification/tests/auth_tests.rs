use chrono::TimeZone;
use rust_url_shortener::auth::{is_created_at_valid, AuthService};
use rust_url_shortener::store::InMemorySessionStore;

#[test]
fn test_is_created_at_valid() {
    let now = chrono::Utc.with_ymd_and_hms(2022, 12, 25, 0, 0, 0).unwrap().timestamp();
    assert_eq!(true, is_created_at_valid(now, "1671731525")); // 1671731525 = 2022 dec 22
    assert_eq!(false, is_created_at_valid(now, "1669139064")); // 1669139064 = 22 nov 22
    assert_eq!(false, is_created_at_valid(now, ""));
}

#[test]
fn test_is_created_at_valid_edges() {
    // exactly at the time-to-live bound: seven days, in seconds
    assert_eq!(true, is_created_at_valid(1000 + 604800, "1000"));
    assert_eq!(false, is_created_at_valid(1000 + 604801, "1000"));
    // non-numeric, signed and padded forms follow integer parsing
    assert_eq!(false, is_created_at_valid(0, "12x"));
    assert_eq!(false, is_created_at_valid(0, " 12"));
    assert_eq!(true, is_created_at_valid(0, "+12"));
    assert_eq!(true, is_created_at_valid(0, "-12"));
    // adding the time-to-live must stay representable: fail closed
    assert_eq!(false, is_created_at_valid(0, "9223372036854775807"));
    // out of range of the type at all: not an integer of the type
    assert_eq!(false, is_created_at_valid(0, "92233720368547758070000"));
}

#[test]
fn test_auth_service_modes() {
    let mut sessions = InMemorySessionStore::new();
    sessions.put_session("serj-service-session||goodtoken", "5000");
    let mut auth = AuthService::new(sessions, false);
    let now = 5000 + 100;
    assert_eq!(true, auth.is_logged("goodtoken", now));
    assert_eq!(false, auth.is_logged("othertoken", now));
    assert_eq!(false, auth.is_logged("", now));
    // expired
    assert_eq!(false, auth.is_logged("goodtoken", 5000 + 604801));
    // insecure mode passes everything
    let mut insecure = AuthService::new(InMemorySessionStore::new(), true);
    assert_eq!(true, insecure.is_logged("", 0));
    assert_eq!(true, insecure.is_logged("whatever", 0));
}

#[test]
fn test_auth_service_non_numeric_session() {
    let mut sessions = InMemorySessionStore::new();
    sessions.put_session("serj-service-session||tok", "not-a-number");
    let mut auth = AuthService::new(sessions, false);
    assert_eq!(false, auth.is_logged("tok", 0));
}
