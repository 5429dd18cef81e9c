//! Turning a request path into a response: the liveness check, address
//! parsing, and the mapping from a lookup's outcome to status and JSON body.
use vstd::prelude::*;
use crate::ip::{parse_ip, spec_parse_ip, IpAddress};
use crate::record::{record_text, GeoRecord};

verus! {

pub const STATUS_OK: u16 = 200;
pub const STATUS_BAD_REQUEST: u16 = 400;
pub const STATUS_NOT_FOUND: u16 = 404;
pub const STATUS_INTERNAL_ERROR: u16 = 500;

/// The media type of every response.
pub open spec fn json_content_type() -> Seq<char> {
    "application/json; charset=utf-8"@
}

pub open spec fn healthy_body() -> Seq<char> {
    "{\"status\": \"healthy\"}"@
}

pub open spec fn invalid_ip_body() -> Seq<char> {
    "{\"error\": \"invalid_ip\"}"@
}

pub open spec fn not_found_body() -> Seq<char> {
    "{\"error\": \"not_found\"}"@
}

pub open spec fn internal_error_body() -> Seq<char> {
    "{\"error\": \"internal_error\"}"@
}

/// The path that answers the liveness check.
pub open spec fn health_path() -> Seq<char> {
    "healthz"@
}

/// What a lookup of a well-formed address gave.
pub enum LookupOutcome {
    Found(GeoRecord),
    NotFound,
    Failed,
}

/// A response: status code, content type and body.
pub struct HttpResponse {
    pub status: u16,
    pub content_type: String,
    pub body: String,
}

/// The abstract content of a response.
pub ghost struct ResponseView {
    pub status: u16,
    pub content_type: Seq<char>,
    pub body: Seq<char>,
}

impl View for HttpResponse {
    type V = ResponseView;

    open spec fn view(&self) -> ResponseView {
        ResponseView { status: self.status, content_type: self.content_type@, body: self.body@ }
    }
}

pub open spec fn json_response(status: u16, body: Seq<char>) -> ResponseView {
    ResponseView { status, content_type: json_content_type(), body }
}

/// The response owed for each outcome of a lookup.
pub open spec fn outcome_response(o: &LookupOutcome) -> ResponseView {
    match o {
        LookupOutcome::Found(rec) => json_response(STATUS_OK, record_text(rec)),
        LookupOutcome::NotFound => json_response(STATUS_NOT_FOUND, not_found_body()),
        LookupOutcome::Failed => json_response(STATUS_INTERNAL_ERROR, internal_error_body()),
    }
}

/// Where a request goes.
#[derive(Clone, Copy, Debug, PartialEq, Eq)]
pub enum Route {
    Health,
    Lookup(IpAddress),
    InvalidAddress,
}

/// The part of a request path after its leading `/` (the whole path where it
/// has none).
pub open spec fn path_rest(p: Seq<char>) -> Seq<char> {
    if p.len() > 0 && p[0] == '/' {
        p.drop_first()
    } else {
        p
    }
}

/// The route of a request path: the liveness check first, then the rest of
/// the path read as an IP address.
pub open spec fn spec_route(path: Seq<char>) -> Route {
    let rest = path_rest(path);
    if rest == health_path() {
        Route::Health
    } else {
        match spec_parse_ip(rest) {
            Some(a) => Route::Lookup(a),
            None => Route::InvalidAddress,
        }
    }
}

/// The response for a route, given the outcome of the lookup where the route
/// asks for one.
pub open spec fn route_response(r: Route, o: &LookupOutcome) -> ResponseView {
    match r {
        Route::Health => json_response(STATUS_OK, healthy_body()),
        Route::InvalidAddress => json_response(STATUS_BAD_REQUEST, invalid_ip_body()),
        Route::Lookup(_) => outcome_response(o),
    }
}

fn json_response_of(status: u16, body: &str) -> (r: HttpResponse)
    ensures
        r@ == json_response(status, body@),
{
    HttpResponse {
        status,
        content_type: String::from_str("application/json; charset=utf-8"),
        body: String::from_str(body),
    }
}

/// The liveness-check response; it does not depend on the database.
pub fn handle_healthcheck() -> (r: HttpResponse)
    ensures
        r@ == json_response(STATUS_OK, healthy_body()),
{
    json_response_of(STATUS_OK, "{\"status\": \"healthy\"}")
}

/// The response to a path that is not an IP address.
pub fn invalid_ip_response() -> (r: HttpResponse)
    ensures
        r@ == json_response(STATUS_BAD_REQUEST, invalid_ip_body()),
{
    json_response_of(STATUS_BAD_REQUEST, "{\"error\": \"invalid_ip\"}")
}

/// The response for the outcome of a lookup.
pub fn outcome_to_response(o: &LookupOutcome) -> (r: HttpResponse)
    ensures
        r@ == outcome_response(o),
{
    match o {
        LookupOutcome::Found(rec) => HttpResponse {
            status: STATUS_OK,
            content_type: String::from_str("application/json; charset=utf-8"),
            body: rec.to_json(),
        },
        LookupOutcome::NotFound => json_response_of(
            STATUS_NOT_FOUND,
            "{\"error\": \"not_found\"}",
        ),
        LookupOutcome::Failed => json_response_of(
            STATUS_INTERNAL_ERROR,
            "{\"error\": \"internal_error\"}",
        ),
    }
}

/// Whether `s` is the liveness-check path.
fn is_health_path(s: &str) -> (r: bool)
    ensures
        r == (s@ == health_path()),
{
    proof {
        reveal_strlit("healthz");
    }
    let n = s.unicode_len();
    if n != 7 {
        return false;
    }
    let r = s.get_char(0) == 'h' && s.get_char(1) == 'e' && s.get_char(2) == 'a' && s.get_char(3)
        == 'l' && s.get_char(4) == 't' && s.get_char(5) == 'h' && s.get_char(6) == 'z';
    if r {
        assert(s@ =~= health_path());
    }
    r
}

/// The route of a request path.
pub fn route(path: &str) -> (r: Route)
    ensures
        r == spec_route(path@),
{
    let n = path.unicode_len();
    let k: usize = if n > 0 && path.get_char(0) == '/' {
        1
    } else {
        0
    };
    let rest = path.substring_char(k, n);
    assert(rest@ =~= path_rest(path@));
    if is_health_path(rest) {
        Route::Health
    } else {
        match parse_ip(rest) {
            Some(a) => Route::Lookup(a),
            None => Route::InvalidAddress,
        }
    }
}

/// The response for a route, given the outcome of its lookup; the outcome is
/// read only for a route that asks for a lookup.
pub fn route_to_response(r: Route, o: &LookupOutcome) -> (resp: HttpResponse)
    ensures
        resp@ == route_response(r, o),
{
    match r {
        Route::Health => handle_healthcheck(),
        Route::InvalidAddress => invalid_ip_response(),
        Route::Lookup(_) => outcome_to_response(o),
    }
}

/// A path that is neither the liveness check nor IP address text is answered
/// with status 400 and the invalid-address body, whatever the database holds.
pub proof fn lemma_invalid_address_bad_request(path: Seq<char>)
    requires
        path_rest(path) != health_path(),
        spec_parse_ip(path_rest(path)) is None,
    ensures
        forall|o: LookupOutcome| #[trigger]
            route_response(spec_route(path), &o) == json_response(
                STATUS_BAD_REQUEST,
                invalid_ip_body(),
            ),
{
}

/// The liveness check is answered with status 200 and the healthy body,
/// whatever the database holds or whether it could be read at all.
pub proof fn lemma_health_always_ok(path: Seq<char>)
    requires
        path_rest(path) == health_path(),
    ensures
        forall|o: LookupOutcome| #[trigger]
            route_response(spec_route(path), &o) == json_response(STATUS_OK, healthy_body()),
{
}

/// Every response carries the JSON media type, whatever its status.
pub proof fn lemma_always_json(path: Seq<char>, o: LookupOutcome)
    ensures
        route_response(spec_route(path), &o).content_type == json_content_type(),
{
}

} // verus!
