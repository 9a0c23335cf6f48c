use rust_url_shortener::auth::AuthService;
use rust_url_shortener::delete_handler::DeleteHandler;
use rust_url_shortener::get_all_handler::GetAllHandler;
use rust_url_shortener::handlers::Handlers;
use rust_url_shortener::link_handler::LinkHandler;
use rust_url_shortener::new_handler::NewHandler;
use rust_url_shortener::router::Router;
use rust_url_shortener::store::{InMemorySessionStore, InMemoryStore, RecordStore};
use rust_url_shortener::url_record::URLRecord;

fn body_of(resp: &str) -> &str {
    resp.split("\r\n\r\n").nth(1).unwrap().trim_end()
}

fn seed_record(store: &mut InMemoryStore, id: &str, url: &str, timestamp: i64, hits: i64) {
    let rec = URLRecord {
        id: id.to_string(),
        url: url.to_string(),
        timestamp,
        hits,
    };
    let key = format!("short_url::{}", id);
    store.put(&key, &rec.to_json()).unwrap();
    store.set_add(&key).unwrap();
}

#[test]
fn test_static_responses() {
    assert_eq!(
        Handlers::handle_ping(),
        "HTTP/1.1 200 OK\r\nAccess-Control-Allow-Origin: *\r\nContent-Type: text/html; charset=UTF-8\r\n\r\nPong!\r\n"
    );
    assert_eq!(
        Handlers::handle_unknown_path(),
        "HTTP/1.1 404\r\nAccess-Control-Allow-Origin: *\r\nContent-Type: text/html; charset=UTF-8\r\n\r\nNot Found :(\r\n"
    );
    assert_eq!(
        Handlers::handle_method_not_allowed("PATCH"),
        "HTTP/1.1 405\r\nAccess-Control-Allow-Origin: *\r\nContent-Type: text/html; charset=UTF-8\r\n\r\nMethod PATCH not allowed\r\n"
    );
    assert_eq!(
        Handlers::respond_with_status_code(400, "oops".to_string()),
        "HTTP/1.1 400\r\nAccess-Control-Allow-Origin: *\r\nContent-Type: text/html; charset=UTF-8\r\n\r\noops\r\n"
    );
    assert!(Handlers::handle_unauthorized().starts_with("HTTP/1.1 401 Unauthorized\r\n"));
    assert!(Handlers::respond_options_ok("/new", "POST")
        .contains("Access-Control-Allow-Methods: POST,OPTIONS\r\n"));
    let redirect = Handlers::handle_redirect("http://example.com/a".to_string());
    assert!(redirect.starts_with("HTTP/1.1 301 Moved Permanently\n"));
    assert!(redirect.contains("\nLocation: http://example.com/a\n"));
    assert!(redirect.contains("Content-Length: 114\n"));
}

#[test]
fn test_create_duplicate_id_rejected() {
    // a caller-chosen id already in the index answers 400 and overwrites nothing
    let mut store = InMemoryStore::new();
    seed_record(&mut store, "taken", "http://old.example.com", 11, 2);
    let before = store.get("short_url::taken").unwrap().unwrap();
    let resp = NewHandler::handle_new(
        &mut store,
        "url=http://new.example.com&cid=taken".to_string(),
        "application/x-www-form-urlencoded".to_string(),
        99,
    );
    assert!(resp.starts_with("HTTP/1.1 400\r\n"));
    assert_eq!(body_of(&resp), "already exists");
    let after = store.get("short_url::taken").unwrap().unwrap();
    assert_eq!(before, after);
}

#[test]
fn test_create_invalid_url_rejected() {
    let mut store = InMemoryStore::new();
    let resp = NewHandler::handle_new(
        &mut store,
        "url=notaurl&cid=x".to_string(),
        "application/x-www-form-urlencoded".to_string(),
        1,
    );
    assert!(resp.starts_with("HTTP/1.1 400\r\n"));
    assert!(store.get("short_url::x").unwrap().is_none());
}

#[test]
fn test_create_percent_encoded_url() {
    let mut store = InMemoryStore::new();
    let resp = NewHandler::handle_new(
        &mut store,
        "url=http%3A%2F%2Fexample.com%2Fz&cid=enc".to_string(),
        "application/x-www-form-urlencoded".to_string(),
        5,
    );
    assert!(resp.starts_with("HTTP/1.1 200\r\n"), "got: {}", resp);
    assert_eq!(body_of(&resp), "enc");
    // the stored record carries the decoded URL: the redirect shows it
    let redirect = LinkHandler::handle_link(&mut store, "/l/enc");
    assert!(redirect.contains("\nLocation: http://example.com/z\n"), "got: {}", redirect);
}

#[test]
fn test_create_minted_id_has_ten_characters() {
    let mut store = InMemoryStore::new();
    let resp = NewHandler::handle_new(
        &mut store,
        "url=http://example.com/minted".to_string(),
        "application/x-www-form-urlencoded".to_string(),
        5,
    );
    assert!(resp.starts_with("HTTP/1.1 200\r\n"));
    let id = body_of(&resp);
    assert_eq!(id.len(), 10);
    assert!(id.chars().all(|c| c.is_ascii_alphanumeric()));
}

#[test]
fn test_resolve_unknown_id() {
    let mut store = InMemoryStore::new();
    let resp = LinkHandler::handle_link(&mut store, "/l/ghost");
    assert!(resp.starts_with("HTTP/1.1 400\r\n"));
}

#[test]
fn test_resolve_bumps_hits() {
    let mut store = InMemoryStore::new();
    seed_record(&mut store, "h", "http://example.com/h", 7, 0);
    let resp = LinkHandler::handle_link(&mut store, "/l/h");
    assert!(resp.contains("\nLocation: http://example.com/h\n"));
    let stored = store.get("short_url::h").unwrap().unwrap();
    let rec = URLRecord::from_json("h".to_string(), &stored);
    assert_eq!(rec.hits, 1);
    LinkHandler::handle_link(&mut store, "/l/h");
    let stored = store.get("short_url::h").unwrap().unwrap();
    let rec = URLRecord::from_json("h".to_string(), &stored);
    assert_eq!(rec.hits, 2);
}

#[test]
fn test_resolve_legacy_record() {
    let mut store = InMemoryStore::new();
    store.put("short_url::old", "http://legacy.example.com").unwrap();
    store.set_add("short_url::old").unwrap();
    let resp = LinkHandler::handle_link(&mut store, "/l/old");
    assert!(resp.contains("\nLocation: http://legacy.example.com\n"));
}

#[test]
fn test_delete_nonexistent_keeps_index() {
    // deleting an unknown id answers "not found" and removes nothing
    let mut store = InMemoryStore::new();
    seed_record(&mut store, "keep", "http://example.com/keep", 1, 0);
    let resp = DeleteHandler::handle_delete(&mut store, "/delete?id=nope");
    assert!(resp.starts_with("HTTP/1.1 404\r\n"));
    assert_eq!(body_of(&resp), "delete [nope] result: 0");
    assert_eq!(store.set_is_member("short_url::keep").unwrap(), true);
    assert!(store.get("short_url::keep").unwrap().is_some());
}

#[test]
fn test_delete_existing() {
    let mut store = InMemoryStore::new();
    seed_record(&mut store, "gone", "http://example.com/gone", 1, 0);
    let resp = DeleteHandler::handle_delete(&mut store, "/delete?id=gone");
    assert!(resp.starts_with("HTTP/1.1 200\r\n"));
    assert_eq!(body_of(&resp), "delete [gone] result: 1");
    assert!(store.get("short_url::gone").unwrap().is_none());
    assert_eq!(store.set_is_member("short_url::gone").unwrap(), false);
}

#[test]
fn test_delete_malformed_queries() {
    let mut store = InMemoryStore::new();
    assert!(DeleteHandler::handle_delete(&mut store, "/delete").starts_with("HTTP/1.1 400\r\n"));
    assert!(DeleteHandler::handle_delete(&mut store, "/delete?x=1").starts_with("HTTP/1.1 400\r\n"));
    assert!(DeleteHandler::handle_delete(&mut store, "/delete?id=").starts_with("HTTP/1.1 400\r\n"));
}

#[test]
fn test_listing_tolerates_bad_entries() {
    // one index member without a record must not abort the listing
    let mut store = InMemoryStore::new();
    seed_record(&mut store, "a", "http://example.com/a", 1, 0);
    seed_record(&mut store, "b", "http://example.com/b", 2, 0);
    store.set_add("short_url::missing").unwrap();
    let resp = GetAllHandler::handle_get_all(&mut store);
    assert!(resp.starts_with("HTTP/1.1 200\r\n"));
    let body = body_of(&resp);
    assert_eq!(body.matches("\"id\":").count(), 2);
    assert!(body.contains("\"url\":\"http://example.com/a\""));
    assert!(body.contains("\"url\":\"http://example.com/b\""));
}

#[test]
fn test_listing_includes_legacy() {
    let mut store = InMemoryStore::new();
    store.put("short_url::old", "http://legacy.example.com").unwrap();
    store.set_add("short_url::old").unwrap();
    let resp = GetAllHandler::handle_get_all(&mut store);
    let body = body_of(&resp);
    assert!(body.contains("\"id\":\"old\""));
    assert!(body.contains("\"url\":\"http://legacy.example.com\""));
    assert!(body.contains("\"timestamp\":0"));
}

#[test]
fn test_end_to_end_scenario() {
    // a valid session token, then create, resolve, list and delete a link
    let mut sessions = InMemorySessionStore::new();
    sessions.put_session("serj-service-session||tokenT", "1000");
    let auth = AuthService::new(sessions, false);
    let store = InMemoryStore::new();
    let mut router = Router::new(store, auth, true, false);
    let now: i64 = 1000;

    let create_req = "POST /new HTTP/1.1\r\nHost: localhost\r\nX-SERJ-TOKEN: tokenT\r\nContent-Type: application/x-www-form-urlencoded\r\n\r\nurl=http://example.com/a";
    let resp = router.route(create_req, now);
    assert!(resp.starts_with("HTTP/1.1 200\r\n"), "create failed: {}", resp);
    let id = body_of(&resp).to_string();
    assert!(!id.is_empty());

    let resolve_req = format!("GET /l/{} HTTP/1.1\r\nHost: localhost", id);
    let resp = router.route(&resolve_req, now);
    assert!(resp.starts_with("HTTP/1.1 301 Moved Permanently\n"), "resolve failed: {}", resp);
    assert!(resp.contains("\nLocation: http://example.com/a\n"));

    let list_req = "GET /all HTTP/1.1\r\nX-SERJ-TOKEN: tokenT\r\n\r\nx";
    let resp = router.route(list_req, now);
    assert!(resp.starts_with("HTTP/1.1 200\r\n"));
    let body = body_of(&resp);
    assert_eq!(body.matches("\"id\":").count(), 1);
    assert!(body.contains("\"url\":\"http://example.com/a\""));
    assert!(body.contains("\"hits\":1"));

    let delete_req = format!("DELETE /delete?id={} HTTP/1.1\r\nX-SERJ-TOKEN: tokenT", id);
    let resp = router.route(&delete_req, now);
    assert!(resp.starts_with("HTTP/1.1 200\r\n"), "delete failed: {}", resp);

    let resp = router.route(&resolve_req, now);
    assert!(resp.starts_with("HTTP/1.1 400\r\n"), "gone link should be 400: {}", resp);
}

#[test]
fn test_json_response_exact() {
    assert_eq!(
        Handlers::json_response(200, "[]".to_string()),
        "HTTP/1.1 200\r\nAccess-Control-Allow-Origin: *\r\nContent-Type: application/json; charset=UTF-8\r\n\r\n[]\r\n"
    );
}

#[test]
fn test_listing_empty_index() {
    let mut store = InMemoryStore::new();
    let resp = GetAllHandler::handle_get_all(&mut store);
    assert_eq!(body_of(&resp), "[]");
}
