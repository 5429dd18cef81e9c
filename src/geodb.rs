//! The steps of a request around the database: what is answered at once,
//! and the response owed for each answer of the database.
use vstd::prelude::*;
use maxminddb::MaxMindDbError;
use crate::ip::{spec_parse_ip, IpAddress};
use crate::record::{record_text, GeoRecord};
use crate::service::{
    health_path, healthy_body, internal_error_body, invalid_ip_body, json_response,
    not_found_body, outcome_response, outcome_to_response, path_rest, route, route_response,
    route_to_response, spec_route, HttpResponse, LookupOutcome, Route, STATUS_BAD_REQUEST,
    STATUS_INTERNAL_ERROR, STATUS_NOT_FOUND, STATUS_OK,
};

verus! {

#[verifier::external_type_specification]
#[verifier::external_body]
pub struct ExMaxMindDbError(MaxMindDbError);

/// The outcome for what the database answered.
pub open spec fn spec_outcome_of(res: Result<Option<GeoRecord>, MaxMindDbError>) -> LookupOutcome {
    match res {
        Ok(Some(rec)) => LookupOutcome::Found(rec),
        Ok(None) => LookupOutcome::NotFound,
        Err(_) => LookupOutcome::Failed,
    }
}

/// The outcome for what the database answered: the record where it found
/// one, not found where it holds none, failed where it could not read or
/// decode the record. The database's error goes no further.
pub fn outcome_of(res: Result<Option<GeoRecord>, MaxMindDbError>) -> (r: LookupOutcome)
    ensures
        r == spec_outcome_of(res),
        (res matches Ok(Some(_))) <==> r is Found,
        (res matches Ok(None)) <==> r is NotFound,
        res is Err <==> r is Failed,
{
    match res {
        Ok(Some(rec)) => LookupOutcome::Found(rec),
        Ok(None) => LookupOutcome::NotFound,
        Err(_) => LookupOutcome::Failed,
    }
}

/// The response for a route, given what the database answered where the route
/// asks for a lookup.
pub fn respond_to_lookup(rt: Route, res: Result<Option<GeoRecord>, MaxMindDbError>) -> (r:
    HttpResponse)
    ensures
        r@ == route_response(rt, &spec_outcome_of(res)),
{
    let outcome = outcome_of(res);
    route_to_response(rt, &outcome)
}

/// What a request calls for: a response at once, or the database's answer for
/// an address first.
pub enum RequestStep {
    Respond(HttpResponse),
    Lookup(IpAddress),
}

/// The first step for a request for `path`. The liveness check and a path
/// that is no IP address are answered at once, without the database; for any
/// other path the database is to be asked for the address that the path holds,
/// and `respond_to_answer` gives the response for its answer.
pub fn handle_request(path: &str) -> (r: RequestStep)
    ensures
        spec_route(path@) == Route::Health ==> (r matches RequestStep::Respond(resp) && resp@
            == json_response(STATUS_OK, healthy_body())),
        spec_route(path@) == Route::InvalidAddress ==> (r matches RequestStep::Respond(resp)
            && resp@ == json_response(STATUS_BAD_REQUEST, invalid_ip_body())),
        (spec_route(path@) is Lookup) <==> (r is Lookup),
        r matches RequestStep::Lookup(a) ==> spec_route(path@) == Route::Lookup(a),
{
    let rt = route(path);
    match rt {
        Route::Lookup(a) => RequestStep::Lookup(a),
        _ => RequestStep::Respond(route_to_response(rt, &LookupOutcome::NotFound)),
    }
}

/// The response for what the database answered for the address a request
/// asked for.
pub fn respond_to_answer(res: Result<Option<GeoRecord>, MaxMindDbError>) -> (r: HttpResponse)
    ensures
        r@ == outcome_response(&spec_outcome_of(res)),
{
    let outcome = outcome_of(res);
    outcome_to_response(&outcome)
}

/// A well-formed address that the database does not hold is answered with
/// status 404 and the not-found body.
pub proof fn lemma_absent_address_not_found(path: Seq<char>)
    requires
        path_rest(path) != health_path(),
        spec_parse_ip(path_rest(path)) is Some,
    ensures
        route_response(spec_route(path), &spec_outcome_of(Ok(None))) == json_response(
            STATUS_NOT_FOUND,
            not_found_body(),
        ),
{
}

/// A well-formed address whose record the database holds is answered with
/// status 200 and that record's JSON text; one whose record it cannot read is
/// answered with status 500 and the internal-error body.
pub proof fn lemma_found_and_failed(path: Seq<char>, rec: GeoRecord, e: MaxMindDbError)
    requires
        path_rest(path) != health_path(),
        spec_parse_ip(path_rest(path)) is Some,
    ensures
        route_response(spec_route(path), &spec_outcome_of(Ok(Some(rec)))) == json_response(
            STATUS_OK,
            record_text(&rec),
        ),
        route_response(spec_route(path), &spec_outcome_of(Err(e))) == json_response(
            STATUS_INTERNAL_ERROR,
            internal_error_body(),
        ),
{
}

/// What a request is answered depends on its path and on the database's
/// answer alone, nothing carried over from an earlier request: a request
/// repeated while the database answers the same gets the same response, and
/// the liveness check or a malformed address gets the same response whatever
/// the database answers.
pub proof fn lemma_repeat_request_same_response(
    path: Seq<char>,
    first: Result<Option<GeoRecord>, MaxMindDbError>,
    again: Result<Option<GeoRecord>, MaxMindDbError>,
)
    requires
        first == again || !(spec_route(path) is Lookup),
    ensures
        route_response(spec_route(path), &spec_outcome_of(first)) == route_response(
            spec_route(path),
            &spec_outcome_of(again),
        ),
{
}

} // verus!
