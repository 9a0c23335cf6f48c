use rust_url_shortener::auth::AuthService;
use rust_url_shortener::router::Router;
use rust_url_shortener::store::{InMemorySessionStore, InMemoryStore};

fn plain_router() -> Router<InMemoryStore, InMemorySessionStore> {
    let auth = AuthService::new(InMemorySessionStore::new(), false);
    Router::new(InMemoryStore::new(), auth, true, false)
}

#[test]
fn test_dispatch_precedence_known_path_wrong_method() {
    // a known path with a disallowed method answers 405, never 404
    let mut router = plain_router();
    let now: i64 = 0;
    let resp = router.route("DELETE /hi HTTP/1.1", now);
    assert!(resp.starts_with("HTTP/1.1 405\r\n"), "got: {}", resp);
    let resp = router.route("GET /new HTTP/1.1", now);
    assert!(resp.starts_with("HTTP/1.1 405\r\n"), "got: {}", resp);
    let resp = router.route("POST /l/abc HTTP/1.1", now);
    assert!(resp.starts_with("HTTP/1.1 405\r\n"), "got: {}", resp);
    let resp = router.route("PATCH /delete?id=1 HTTP/1.1", now);
    assert!(resp.starts_with("HTTP/1.1 405\r\n"), "got: {}", resp);
    let resp = router.route("POST /all HTTP/1.1", now);
    assert!(resp.starts_with("HTTP/1.1 405\r\n"), "got: {}", resp);
}

#[test]
fn test_dispatch_unknown_path_always_404() {
    // an unknown path answers 404 whatever the method
    let mut router = plain_router();
    let now: i64 = 0;
    for req in ["GET /nowhere HTTP/1.1", "POST /nowhere HTTP/1.1", "DELETE / HTTP/1.1"] {
        let resp = router.route(req, now);
        assert!(resp.starts_with("HTTP/1.1 404\r\n"), "got: {}", resp);
    }
}

#[test]
fn test_open_routes() {
    let mut router = plain_router();
    let now: i64 = 0;
    let resp = router.route("PUT /ping HTTP/1.1", now);
    assert!(resp.ends_with("Pong!\r\n"));
    let resp = router.route("GET /hi HTTP/1.1", now);
    assert!(resp.contains("Hello world budy!"));
}

#[test]
fn test_preflight_skips_auth() {
    // OPTIONS on a protected route is acknowledged without a token
    let mut router = plain_router();
    let now: i64 = 0;
    let resp = router.route("OPTIONS /new HTTP/1.1", now);
    assert!(resp.contains("Access-Control-Allow-Methods: POST,OPTIONS\r\n"), "got: {}", resp);
    let resp = router.route("OPTIONS /all HTTP/1.1", now);
    assert!(resp.contains("Access-Control-Allow-Methods: GET,OPTIONS\r\n"));
    let resp = router.route("OPTIONS /delete?id=1 HTTP/1.1", now);
    assert!(resp.contains("Access-Control-Allow-Methods: DELETE,OPTIONS\r\n"));
}

#[test]
fn test_protected_routes_need_session() {
    let mut router = plain_router();
    let now: i64 = 0;
    for req in [
        "POST /new HTTP/1.1\r\n\r\nurl=http://a.b",
        "GET /all HTTP/1.1\r\nX-SERJ-TOKEN: wrong\r\n\r\nx",
        "DELETE /delete?id=1 HTTP/1.1",
    ] {
        let resp = router.route(req, now);
        assert!(resp.starts_with("HTTP/1.1 401 Unauthorized\r\n"), "got: {}", resp);
    }
}

#[test]
fn test_empty_and_malformed_requests() {
    let mut router = plain_router();
    let now: i64 = 0;
    // an empty buffer, nulls included, is handled as an unknown request
    let resp = router.route("", now);
    assert!(resp.starts_with("HTTP/1.1 404\r\n"));
    let resp = router.route("\u{0}\u{0}\u{0}", now);
    assert!(resp.starts_with("HTTP/1.1 404\r\n"));
    // a lone method misses its path
    let resp = router.route("GET", now);
    assert!(resp.starts_with("HTTP/1.1 400\r\n"));
    assert!(resp.contains("http path not found"));
}

#[test]
fn test_insecure_mode_bypasses_auth() {
    let auth = AuthService::new(InMemorySessionStore::new(), true);
    let mut router = Router::new(InMemoryStore::new(), auth, true, false);
    let resp = router.route("GET /all HTTP/1.1", 0);
    assert!(resp.starts_with("HTTP/1.1 200\r\n"), "got: {}", resp);
}

#[test]
fn test_new_without_content_type() {
    // no Content-Type header: the body cannot be read, so 400
    let auth = AuthService::new(InMemorySessionStore::new(), true);
    let mut router = Router::new(InMemoryStore::new(), auth, true, false);
    let resp = router.route("POST /new HTTP/1.1\r\n\r\nurl=http://a.b", 0);
    assert!(resp.starts_with("HTTP/1.1 400\r\n"), "got: {}", resp);
    assert!(resp.contains("invalid url"));
}
