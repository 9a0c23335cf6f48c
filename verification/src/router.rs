//! The dispatcher: a raw request buffer is trimmed and its first two
//! whitespace-separated tokens become the method and the path; the static
//! route table maps them to a handler, a preflight acknowledgement, 405 or
//! 404, with path match taking precedence over method match; protected
//! routes consult the session validator before their handler runs.

use vstd::prelude::*;
use crate::auth::{spec_is_authorized, AuthService};
use crate::delete_handler::DeleteHandler;
use crate::get_all_handler::GetAllHandler;
use crate::handlers::{
    Handlers, spec_method_not_allowed_response, spec_options_response, spec_ping_response,
    spec_hello_response, spec_redirect_response, spec_status_response,
    spec_unauthorized_response, spec_unknown_path_response,
};
use crate::link_handler::LinkHandler;
use crate::new_handler::NewHandler;
use crate::store::{RecordStore, SessionStore};
use crate::url_record::{spec_stored_model, spec_url_key};
use crate::text::{
    chars_to_string, eq_str, is_ws_char, lines_of, spec_lines, spec_split_term, spec_trim_end_pad,
    spec_trim_ws, split_term, starts_with_str, sub_string, to_chars, trim_end_pad, trim_ws,
    ws_char,
};
use vstd::string::StringExecFns;

verus! {

// ---------- tokens of the request line ----------

/// First position at or after `from` that holds no whitespace.
pub open spec fn spec_skip_ws(s: Seq<char>, from: int) -> int
    decreases s.len() - from,
{
    if from < 0 || from >= s.len() {
        s.len() as int
    } else if is_ws_char(s[from]) {
        spec_skip_ws(s, from + 1)
    } else {
        from
    }
}

/// First position at or after `from` that holds whitespace.
pub open spec fn spec_token_end(s: Seq<char>, from: int) -> int
    decreases s.len() - from,
{
    if from < 0 || from >= s.len() {
        s.len() as int
    } else if !is_ws_char(s[from]) {
        spec_token_end(s, from + 1)
    } else {
        from
    }
}

pub fn skip_ws(v: &[char], from: usize) -> (r: usize)
    requires
        from <= v@.len(),
    ensures
        r == spec_skip_ws(v@, from as int),
        from <= r <= v@.len(),
{
    let n = v.len();
    let mut i: usize = from;
    while i < n && ws_char(v[i])
        invariant
            from <= i <= n,
            n == v@.len(),
            spec_skip_ws(v@, from as int) == spec_skip_ws(v@, i as int),
        decreases n - i,
    {
        i = i + 1;
    }
    i
}

pub fn token_end(v: &[char], from: usize) -> (r: usize)
    requires
        from <= v@.len(),
    ensures
        r == spec_token_end(v@, from as int),
        from <= r <= v@.len(),
{
    let n = v.len();
    let mut i: usize = from;
    while i < n && !ws_char(v[i])
        invariant
            from <= i <= n,
            n == v@.len(),
            spec_token_end(v@, from as int) == spec_token_end(v@, i as int),
        decreases n - i,
    {
        i = i + 1;
    }
    i
}

/// The method, the path, and the trimmed request, when the trimmed buffer
/// carries at least two whitespace-separated tokens.
pub open spec fn spec_req_parts(raw: Seq<char>) -> Option<(Seq<char>, Seq<char>, Seq<char>)> {
    let t = spec_trim_end_pad(raw);
    if t.len() == 0 {
        None
    } else {
        let ms = spec_skip_ws(t, 0);
        if ms >= t.len() {
            None
        } else {
            let me = spec_token_end(t, ms);
            let ps = spec_skip_ws(t, me);
            if ps >= t.len() {
                None
            } else {
                Some((t.subrange(ms, me), t.subrange(ps, spec_token_end(t, ps)), t))
            }
        }
    }
}

// ---------- header lookup ----------

/// Whether a line carries the header: trimmed, it starts with the header
/// name and splits on `:` into exactly two pieces.
pub open spec fn spec_header_match(header: Seq<char>, line: Seq<char>) -> bool {
    let t = spec_trim_ws(line);
    header.is_prefix_of(t) && spec_split_term(t, ':').len() == 2
}

/// The value a matching line carries: the piece after the `:`, trimmed.
pub open spec fn spec_header_value(line: Seq<char>) -> Seq<char> {
    spec_trim_ws(spec_split_term(spec_trim_ws(line), ':')[1])
}

pub open spec fn spec_req_header_lines(header: Seq<char>, lns: Seq<Seq<char>>) -> Seq<char>
    decreases lns.len(),
{
    if lns.len() == 0 {
        Seq::<char>::empty()
    } else if spec_header_match(header, lns.first()) {
        spec_header_value(lns.first())
    } else {
        spec_req_header_lines(header, lns.drop_first())
    }
}

/// The value of the first line that carries the header, or the empty
/// string when none does.
pub open spec fn spec_req_header(header: Seq<char>, req: Seq<char>) -> Seq<char> {
    spec_req_header_lines(header, spec_lines(req))
}

/// Finds the value of a request header: the first line that, trimmed,
/// starts with the header name and splits on `:` into exactly two pieces
/// yields its trimmed second piece; no such line yields the empty string.
pub fn get_req_header(header: &str, req_str: &str) -> (r: String)
    ensures
        r@ == spec_req_header(header@, req_str@),
{
    let req_chars = to_chars(req_str);
    let lns = lines_of(req_chars.as_slice());
    let ghost lviews = lns@.map_values(|p: Vec<char>| p@);
    let n = lns.len();
    let mut i: usize = 0;
    proof {
        assert(lviews.skip(0) =~= lviews);
    }
    while i < n
        invariant
            i <= n,
            n == lns@.len(),
            lviews == lns@.map_values(|p: Vec<char>| p@),
            lviews == spec_lines(req_str@),
            spec_req_header_lines(header@, lviews) == spec_req_header_lines(
                header@,
                lviews.skip(i as int),
            ),
        decreases n - i,
    {
        let t = trim_ws(lns[i].as_slice());
        proof {
            assert(lviews.skip(i as int).first() == lviews[i as int]);
        }
        if starts_with_str(t.as_slice(), header) {
            let parts = split_term(t.as_slice(), ':');
            if parts.len() == 2 {
                let value = trim_ws(parts[1].as_slice());
                proof {
                    assert(parts@.map_values(|p: Vec<char>| p@)[1] == parts@[1]@);
                    assert(spec_header_match(header@, lviews[i as int]));
                }
                return chars_to_string(value.as_slice());
            }
        }
        proof {
            assert(!spec_header_match(header@, lviews[i as int]));
            assert(lviews.skip(i as int).drop_first() =~= lviews.skip(i + 1));
        }
        i = i + 1;
    }
    proof {
        assert(lviews.skip(n as int) =~= Seq::<Seq<char>>::empty());
    }
    String::new()
}

// ---------- the route table ----------

/// What the route table decides for a method and a path.
pub enum RouteDecision {
    ResolveLink,
    DeleteLink,
    NewLink,
    ListLinks,
    Ping,
    Hello,
    CorsPreflight,
    MethodNotAllowed,
    NotFound,
}

/// The static route table: path match first, then the method. A prefix
/// `/l/` resolves a link; a prefix `/delete` deletes one; `/ping`, `/hi`,
/// `/new` and `/all` match exactly; anything else is unknown.
pub open spec fn spec_dispatch(method: Seq<char>, path: Seq<char>) -> RouteDecision {
    if "/l/"@.is_prefix_of(path) {
        if method == "GET"@ {
            RouteDecision::ResolveLink
        } else {
            RouteDecision::MethodNotAllowed
        }
    } else if "/delete"@.is_prefix_of(path) {
        if method == "OPTIONS"@ {
            RouteDecision::CorsPreflight
        } else if method == "DELETE"@ {
            RouteDecision::DeleteLink
        } else {
            RouteDecision::MethodNotAllowed
        }
    } else if path == "/ping"@ {
        RouteDecision::Ping
    } else if path == "/hi"@ {
        if method == "GET"@ {
            RouteDecision::Hello
        } else {
            RouteDecision::MethodNotAllowed
        }
    } else if path == "/new"@ {
        if method == "OPTIONS"@ {
            RouteDecision::CorsPreflight
        } else if method == "POST"@ {
            RouteDecision::NewLink
        } else {
            RouteDecision::MethodNotAllowed
        }
    } else if path == "/all"@ {
        if method == "OPTIONS"@ {
            RouteDecision::CorsPreflight
        } else if method == "GET"@ {
            RouteDecision::ListLinks
        } else {
            RouteDecision::MethodNotAllowed
        }
    } else {
        RouteDecision::NotFound
    }
}

/// Whether some route matches the path.
pub open spec fn spec_known_path(path: Seq<char>) -> bool {
    "/l/"@.is_prefix_of(path) || "/delete"@.is_prefix_of(path) || path == "/ping"@ || path
        == "/hi"@ || path == "/new"@ || path == "/all"@
}

/// Whether the path's route allows the method, preflights included.
pub open spec fn spec_method_allowed(method: Seq<char>, path: Seq<char>) -> bool {
    if "/l/"@.is_prefix_of(path) {
        method == "GET"@
    } else if "/delete"@.is_prefix_of(path) {
        method == "OPTIONS"@ || method == "DELETE"@
    } else if path == "/ping"@ {
        true
    } else if path == "/hi"@ {
        method == "GET"@
    } else if path == "/new"@ {
        method == "OPTIONS"@ || method == "POST"@
    } else if path == "/all"@ {
        method == "OPTIONS"@ || method == "GET"@
    } else {
        false
    }
}

/// The method a preflight acknowledgement advertises for the path.
pub open spec fn spec_preflight_method(path: Seq<char>) -> Seq<char> {
    if "/delete"@.is_prefix_of(path) {
        "DELETE"@
    } else if path == "/new"@ {
        "POST"@
    } else {
        "GET"@
    }
}

/// Whether the route demands a valid session before its handler runs.
pub open spec fn spec_protected(d: RouteDecision) -> bool {
    d is DeleteLink || d is NewLink || d is ListLinks
}

/// Dispatch precedence: a known path never answers "not found" — with a
/// method its route does not allow it answers "method not allowed" — and
/// an unknown path answers "not found" whatever the method.
pub proof fn lemma_dispatch_precedence(method: Seq<char>, path: Seq<char>)
    ensures
        spec_known_path(path) ==> !(spec_dispatch(method, path) is NotFound),
        spec_known_path(path) && !spec_method_allowed(method, path) ==> spec_dispatch(method, path)
            is MethodNotAllowed,
        !spec_known_path(path) ==> spec_dispatch(method, path) is NotFound,
{
}

/// Decides the route of a request.
pub fn dispatch(method: &[char], path: &[char]) -> (d: RouteDecision)
    ensures
        d == spec_dispatch(method@, path@),
{
    if starts_with_str(path, "/l/") {
        if eq_str(method, "GET") {
            RouteDecision::ResolveLink
        } else {
            RouteDecision::MethodNotAllowed
        }
    } else if starts_with_str(path, "/delete") {
        if eq_str(method, "OPTIONS") {
            RouteDecision::CorsPreflight
        } else if eq_str(method, "DELETE") {
            RouteDecision::DeleteLink
        } else {
            RouteDecision::MethodNotAllowed
        }
    } else if eq_str(path, "/ping") {
        RouteDecision::Ping
    } else if eq_str(path, "/hi") {
        if eq_str(method, "GET") {
            RouteDecision::Hello
        } else {
            RouteDecision::MethodNotAllowed
        }
    } else if eq_str(path, "/new") {
        if eq_str(method, "OPTIONS") {
            RouteDecision::CorsPreflight
        } else if eq_str(method, "POST") {
            RouteDecision::NewLink
        } else {
            RouteDecision::MethodNotAllowed
        }
    } else if eq_str(path, "/all") {
        if eq_str(method, "OPTIONS") {
            RouteDecision::CorsPreflight
        } else if eq_str(method, "GET") {
            RouteDecision::ListLinks
        } else {
            RouteDecision::MethodNotAllowed
        }
    } else {
        RouteDecision::NotFound
    }
}

// ---------- the router ----------

/// The response to a request that is decided before any handler or the
/// session validator runs: an empty buffer, a missing method or path, a
/// liveness or greeting route, a preflight, a disallowed method, or an
/// unknown path.
pub open spec fn spec_route_plain(raw: Seq<char>) -> Option<Seq<char>> {
    match spec_req_parts(raw) {
        None => {
            if spec_trim_end_pad(raw).len() == 0 {
                Some(spec_unknown_path_response())
            } else if spec_skip_ws(spec_trim_end_pad(raw), 0) >= spec_trim_end_pad(raw).len() {
                Some(spec_status_response(400, "http method not found"@))
            } else {
                Some(spec_status_response(400, "http path not found"@))
            }
        },
        Some(p) => match spec_dispatch(p.0, p.1) {
            RouteDecision::Ping => Some(spec_ping_response()),
            RouteDecision::Hello => Some(spec_hello_response()),
            RouteDecision::CorsPreflight => Some(
                spec_options_response(spec_preflight_method(p.1)),
            ),
            RouteDecision::MethodNotAllowed => Some(spec_method_not_allowed_response(p.0)),
            RouteDecision::NotFound => Some(spec_unknown_path_response()),
            _ => None,
        },
    }
}

/// Routes requests: parses the request line, dispatches on the route
/// table, gates protected routes behind the session validator, and lets
/// the matching handler answer. It owns the record store the handlers
/// work on and the auth service with its session store.
pub struct Router<R: RecordStore, S: SessionStore> {
    pub suppress_logs: bool,
    pub is_verbose: bool,
    pub store: R,
    pub auth_service: AuthService<S>,
    pub link_handler: LinkHandler,
    pub new_handler: NewHandler,
    pub get_all_handler: GetAllHandler,
    pub delete_handler: DeleteHandler,
}

impl<R: RecordStore, S: SessionStore> Router<R, S> {
    pub fn new(store: R, auth_service: AuthService<S>, suppress_logs: bool, is_verbose: bool) -> (r:
        Router<R, S>)
        ensures
            r.store == store,
            r.auth_service == auth_service,
            r.suppress_logs == suppress_logs,
            r.is_verbose == is_verbose,
    {
        Router {
            suppress_logs,
            is_verbose,
            store,
            auth_service,
            link_handler: LinkHandler::new(),
            new_handler: NewHandler::new(),
            get_all_handler: GetAllHandler::new(),
            delete_handler: DeleteHandler::new(),
        }
    }

    pub fn with_no_logs(self) -> (r: Router<R, S>)
        ensures
            r == (Router { suppress_logs: true, ..self }),
    {
        Router { suppress_logs: true, ..self }
    }

    pub fn with_logs(self) -> (r: Router<R, S>)
        ensures
            r == (Router { suppress_logs: false, ..self }),
    {
        Router { suppress_logs: false, ..self }
    }

    /// Serves one raw request buffer at time `now` and returns the
    /// response text. A request decided before any handler runs gets
    /// exactly its table answer and touches no store; a protected route
    /// without a valid session is answered 401 and its handler never
    /// runs.
    pub fn route(&mut self, raw: &str, now: i64) -> (r: String)
        ensures
            old(self).store.obeys() ==> final(self).store.obeys(),
            final(self).auth_service.is_insecure == old(self).auth_service.is_insecure,
            final(self).auth_service.store.sessions() == old(self).auth_service.store.sessions(),
            final(self).auth_service.store.obeys() == old(self).auth_service.store.obeys(),
            spec_route_plain(raw@) matches Some(resp) ==> r@ == resp && final(self).store.records()
                == old(self).store.records() && final(self).store.index() == old(self).store.index(),
            !old(self).auth_service.is_insecure && old(self).auth_service.store.obeys() ==> (
            spec_req_parts(raw@) matches Some(p) ==> (spec_protected(spec_dispatch(p.0, p.1))
                && !spec_is_authorized(
                old(self).auth_service.store.sessions(),
                spec_req_header("X-SERJ-TOKEN"@, p.2),
                now as int,
            ) ==> r@ == spec_unauthorized_response() && final(self).store.records() == old(self).store.records() && final(self).store.index() == old(self).store.index())),
            old(self).store.obeys() ==> (spec_req_parts(raw@) matches Some(p) ==> (spec_dispatch(
                p.0,
                p.1,
            ) is ResolveLink && old(self).store.records().contains_key(
                spec_url_key(p.1.skip(3)),
            ) ==> r@ == spec_redirect_response(
                spec_stored_model(
                    p.1.skip(3),
                    old(self).store.records()[spec_url_key(p.1.skip(3))],
                ).url,
            ))),
    {
        let chars = to_chars(raw);
        let trimmed = trim_end_pad(chars.as_slice());
        if trimmed.len() == 0 {
            return Handlers::handle_unknown_path();
        }
        let ms = skip_ws(trimmed.as_slice(), 0);
        if ms >= trimmed.len() {
            return Handlers::respond_with_status_code(
                400,
                String::from_str("http method not found"),
            );
        }
        let me = token_end(trimmed.as_slice(), ms);
        let ps = skip_ws(trimmed.as_slice(), me);
        if ps >= trimmed.len() {
            return Handlers::respond_with_status_code(
                400,
                String::from_str("http path not found"),
            );
        }
        let pe = token_end(trimmed.as_slice(), ps);
        let method = sub_string(trimmed.as_slice(), ms, me);
        let path = sub_string(trimmed.as_slice(), ps, pe);
        let req_str = chars_to_string(trimmed.as_slice());
        self.route_path(req_str.as_str(), method.as_str(), path.as_str(), now)
    }

    fn route_path(&mut self, req_str: &str, method: &str, path: &str, now: i64) -> (r: String)
        ensures
            old(self).store.obeys() ==> final(self).store.obeys(),
            final(self).auth_service.is_insecure == old(self).auth_service.is_insecure,
            final(self).auth_service.store.sessions() == old(self).auth_service.store.sessions(),
            final(self).auth_service.store.obeys() == old(self).auth_service.store.obeys(),
            spec_dispatch(method@, path@) is Ping ==> r@ == spec_ping_response() && final(self).store.records() == old(self).store.records() && final(self).store.index() == old(self).store.index(),
            spec_dispatch(method@, path@) is Hello ==> r@ == spec_hello_response() && final(self).store.records() == old(self).store.records() && final(self).store.index() == old(self).store.index(),
            spec_dispatch(method@, path@) is NotFound ==> r@ == spec_unknown_path_response()
                && final(self).store.records() == old(self).store.records() && final(self).store.index() == old(self).store.index(),
            spec_dispatch(method@, path@) is MethodNotAllowed ==> r@
                == spec_method_not_allowed_response(method@) && final(self).store.records() == old(self).store.records() && final(self).store.index() == old(self).store.index(),
            spec_dispatch(method@, path@) is CorsPreflight ==> r@ == spec_options_response(
                spec_preflight_method(path@),
            ) && final(self).store.records() == old(self).store.records() && final(self).store.index() == old(self).store.index(),
            spec_dispatch(method@, path@) is ResolveLink ==> final(self).store.index() == old(
                self,
            ).store.index(),
            old(self).store.obeys() && spec_dispatch(method@, path@) is ResolveLink && !old(
                self,
            ).store.records().contains_key(spec_url_key(path@.skip(3))) ==> r@
                == spec_status_response(400, "url record not found"@) && final(self).store.records()
                == old(self).store.records(),
            old(self).store.obeys() && spec_dispatch(method@, path@) is ResolveLink && old(
                self,
            ).store.records().contains_key(spec_url_key(path@.skip(3))) ==> r@
                == spec_redirect_response(
                spec_stored_model(
                    path@.skip(3),
                    old(self).store.records()[spec_url_key(path@.skip(3))],
                ).url,
            ),
            !old(self).auth_service.is_insecure && old(self).auth_service.store.obeys() && (
            spec_protected(spec_dispatch(method@, path@)) && !spec_is_authorized(
                old(self).auth_service.store.sessions(),
                spec_req_header("X-SERJ-TOKEN"@, req_str@),
                now as int,
            )) ==> r@ == spec_unauthorized_response() && final(self).store.records() == old(self).store.records() && final(self).store.index() == old(self).store.index(),
    {
        let method_chars = to_chars(method);
        let path_chars = to_chars(path);
        match dispatch(method_chars.as_slice(), path_chars.as_slice()) {
            RouteDecision::Ping => Handlers::handle_ping(),
            RouteDecision::Hello => Handlers::handle_hello_world(),
            RouteDecision::NotFound => Handlers::handle_unknown_path(),
            RouteDecision::MethodNotAllowed => Handlers::handle_method_not_allowed(method),
            RouteDecision::CorsPreflight => {
                if starts_with_str(path_chars.as_slice(), "/delete") {
                    Handlers::respond_options_ok(path, "DELETE")
                } else if eq_str(path_chars.as_slice(), "/new") {
                    Handlers::respond_options_ok(path, "POST")
                } else {
                    Handlers::respond_options_ok(path, "GET")
                }
            },
            RouteDecision::ResolveLink => LinkHandler::handle_link(&mut self.store, path),
            RouteDecision::DeleteLink => {
                let session_token = get_req_header("X-SERJ-TOKEN", req_str);
                if !self.auth_service.is_logged(session_token.as_str(), now) {
                    return Handlers::handle_unauthorized();
                }
                DeleteHandler::handle_delete(&mut self.store, path)
            },
            RouteDecision::NewLink => {
                let session_token = get_req_header("X-SERJ-TOKEN", req_str);
                if !self.auth_service.is_logged(session_token.as_str(), now) {
                    return Handlers::handle_unauthorized();
                }
                let req_chars = to_chars(req_str);
                let lns = lines_of(req_chars.as_slice());
                if lns.len() == 0 {
                    return Handlers::respond_with_status_code(
                        400,
                        String::from_str("missing request body"),
                    );
                }
                let post_body = chars_to_string(lns[lns.len() - 1].as_slice());
                let content_type = get_req_header("Content-Type", req_str);
                NewHandler::handle_new(&mut self.store, post_body, content_type, now)
            },
            RouteDecision::ListLinks => {
                let session_token = get_req_header("X-SERJ-TOKEN", req_str);
                if !self.auth_service.is_logged(session_token.as_str(), now) {
                    return Handlers::handle_unauthorized();
                }
                GetAllHandler::handle_get_all(&mut self.store)
            },
        }
    }
}

} // verus!
