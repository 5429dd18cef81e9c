use geoip_lookup::ip::{parse_ip, IpAddress};
use geoip_lookup::geodb::{handle_request, outcome_of, respond_to_answer, respond_to_lookup, RequestStep};
use geoip_lookup::record::{record_from_parts, GeoRecord, RecordParts};
use geoip_lookup::service::{
    handle_healthcheck, outcome_to_response, route, route_to_response, HttpResponse,
    LookupOutcome, Route,
};

const JSON: &str = "application/json; charset=utf-8";

fn names(pairs: &[(&str, &str)]) -> Vec<(String, String)> {
    pairs.iter().map(|(k, v)| (k.to_string(), v.to_string())).collect()
}

fn empty_record() -> GeoRecord {
    GeoRecord {
        latitude: "null".to_string(),
        longitude: "null".to_string(),
        time_zone: String::new(),
        iso_code: String::new(),
        city_names: Vec::new(),
        subdivision_names: Vec::new(),
        country_names: Vec::new(),
        registered_country_names: Vec::new(),
    }
}

fn linkoping_record() -> GeoRecord {
    GeoRecord {
        latitude: "58.4167".to_string(),
        longitude: "15.6167".to_string(),
        time_zone: "Europe/Stockholm".to_string(),
        iso_code: "SE".to_string(),
        city_names: names(&[("en", "Linköping")]),
        subdivision_names: vec![names(&[("en", "Östergötland County"), ("fr", "Comté d'Östergötland")])],
        country_names: names(&[("de", "Schweden"), ("en", "Sweden")]),
        registered_country_names: names(&[("en", "Sweden")]),
    }
}

fn respond(path: &str, outcome: LookupOutcome) -> HttpResponse {
    route_to_response(route(path), &outcome)
}

#[test]
fn test_handle_request_with_invalid_ip() {
    let response = respond("/invalid-ip", LookupOutcome::NotFound);
    assert_eq!(response.status, 400);
    assert_eq!(response.body, "{\"error\": \"invalid_ip\"}");
    assert_eq!(response.content_type, JSON);
}

#[test]
fn unknown_ip_is_not_found() {
    assert_eq!(route("/192.168.0.1"), Route::Lookup(IpAddress::V4([192, 168, 0, 1])));
    let response = respond("/192.168.0.1", LookupOutcome::NotFound);
    assert_eq!(response.content_type, JSON);
    assert_eq!(response.status, 404);
    assert_eq!(response.body, "{\"error\": \"not_found\"}");
    let response = respond("/2001:db8::1", LookupOutcome::NotFound);
    assert_eq!(response.status, 404);
    assert_eq!(response.body, "{\"error\": \"not_found\"}");
}

#[test]
fn found_record_names_the_city() {
    assert_eq!(route("/89.160.20.128"), Route::Lookup(IpAddress::V4([89, 160, 20, 128])));
    let response = respond("/89.160.20.128", LookupOutcome::Found(linkoping_record()));
    assert_eq!(response.content_type, JSON);
    assert_eq!(response.status, 200);
    let json: serde_json::Value = serde_json::from_str(&response.body).unwrap();
    assert_eq!(json["city"]["names"]["en"], "Linköping");
    assert_eq!(json["country"]["iso_code"], "SE");
    assert_eq!(json["subdivisions"][0]["names"]["fr"], "Comté d'Östergötland");
    assert_eq!(json["location"]["time_zone"], "Europe/Stockholm");
    assert_eq!(json["location"]["latitude"].as_f64(), Some(58.4167));
}

#[test]
fn failed_lookup_is_internal_error() {
    let response = respond("/10.0.0.1", LookupOutcome::Failed);
    assert_eq!(response.status, 500);
    assert_eq!(response.body, "{\"error\": \"internal_error\"}");
    assert_eq!(response.content_type, JSON);
}

#[test]
fn healthz_is_healthy_whatever_the_outcome() {
    for outcome in [LookupOutcome::NotFound, LookupOutcome::Failed] {
        let response = respond("/healthz", outcome);
        assert_eq!(response.status, 200);
        assert_eq!(response.body, "{\"status\": \"healthy\"}");
        assert_eq!(response.content_type, JSON);
    }
    assert_eq!(route("healthz"), Route::Health);
    assert_eq!(route("//healthz"), Route::InvalidAddress);
    assert_eq!(route("//1.2.3.4"), Route::InvalidAddress);
    assert_eq!(route("1.2.3.4"), Route::Lookup(IpAddress::V4([1, 2, 3, 4])));
    assert_eq!(route("/healthz/"), Route::InvalidAddress);
    let response = handle_healthcheck();
    assert_eq!(response.status, 200);
    assert_eq!(response.body, "{\"status\": \"healthy\"}");
}

#[test]
fn malformed_addresses_are_bad_requests() {
    let bad = [
        "", "/", "invalid-ip", "999.999.999.999", "1.2.3", "1.2.3.4.5", "01.2.3.4", "256.0.0.1",
        "1.2.3.4 ", "1..2.3", ":::", "1::2::3", "12345::", "1:2:3:4:5:6:7:8:9", "1:2:3:4:5:6:7",
        "::1.2.3", "1.2.3.4::", "1:2:3:4:5:6:7:1.2.3.4", "::1:2:3:4:5:6:7:8", "g::1", ":1::",
        "1::2:", "favicon.ico",
    ];
    for path in bad {
        assert_eq!(parse_ip(path), None, "{}", path);
        let response = respond(&format!("/{}", path), LookupOutcome::NotFound);
        assert_eq!(response.status, 400, "{}", path);
        assert_eq!(response.body, "{\"error\": \"invalid_ip\"}");
        assert_eq!(response.content_type, JSON);
    }
}

#[test]
fn ipv4_text_is_parsed() {
    assert_eq!(parse_ip("0.0.0.0"), Some(IpAddress::V4([0, 0, 0, 0])));
    assert_eq!(parse_ip("255.255.255.255"), Some(IpAddress::V4([255, 255, 255, 255])));
    assert_eq!(parse_ip("10.0.100.7"), Some(IpAddress::V4([10, 0, 100, 7])));
}

#[test]
fn ipv6_text_is_parsed() {
    assert_eq!(parse_ip("::"), Some(IpAddress::V6([0; 8])));
    assert_eq!(parse_ip("::1"), Some(IpAddress::V6([0, 0, 0, 0, 0, 0, 0, 1])));
    assert_eq!(
        parse_ip("2001:db8::1"),
        Some(IpAddress::V6([0x2001, 0xdb8, 0, 0, 0, 0, 0, 1]))
    );
    assert_eq!(parse_ip("1:2:3:4:5:6:7:8"), Some(IpAddress::V6([1, 2, 3, 4, 5, 6, 7, 8])));
    assert_eq!(parse_ip("1:2:3:4:5:6:7::"), Some(IpAddress::V6([1, 2, 3, 4, 5, 6, 7, 0])));
    assert_eq!(parse_ip("::1:2:3:4:5:6:7"), Some(IpAddress::V6([0, 1, 2, 3, 4, 5, 6, 7])));
    assert_eq!(
        parse_ip("::ffff:192.168.0.1"),
        Some(IpAddress::V6([0, 0, 0, 0, 0, 0xffff, 0xc0a8, 0x0001]))
    );
    assert_eq!(
        parse_ip("1:2:3:4:5:6:1.2.3.4"),
        Some(IpAddress::V6([1, 2, 3, 4, 5, 6, 0x0102, 0x0304]))
    );
    assert_eq!(parse_ip("ABCD::0ef"), Some(IpAddress::V6([0xabcd, 0, 0, 0, 0, 0, 0, 0xef])));
}

#[test]
fn empty_record_keeps_every_group() {
    let response = outcome_to_response(&LookupOutcome::Found(empty_record()));
    assert_eq!(response.status, 200);
    assert_eq!(
        response.body,
        "{\"location\": {\"latitude\": null, \"longitude\": null, \"time_zone\": \"\"}, \
         \"country\": {\"iso_code\": \"\", \"names\": {}}, \"registered_country\": {\"names\": {}}, \
         \"city\": {\"names\": {}}, \"subdivisions\": []}"
    );
}

#[test]
fn names_are_escaped() {
    let mut record = empty_record();
    record.city_names = names(&[("en", "a\"b\\c\nd\u{1}e")]);
    let body = record.to_json();
    assert!(body.contains("\"city\": {\"names\": {\"en\": \"a\\\"b\\\\c\\nd\\u0001e\"}}"), "{}", body);
    let json: serde_json::Value = serde_json::from_str(&body).unwrap();
    assert_eq!(json["city"]["names"]["en"], "a\"b\\c\nd\u{1}e");
}

#[test]
fn two_subdivisions_in_order() {
    let mut record = empty_record();
    record.subdivision_names = vec![names(&[("en", "Outer")]), names(&[("en", "Inner"), ("es", "Interior")])];
    let body = record.to_json();
    assert!(body.ends_with(
        "\"subdivisions\": [{\"names\": {\"en\": \"Outer\"}}, {\"names\": {\"en\": \"Inner\", \"es\": \"Interior\"}}]}"
    ));
}

#[test]
fn same_request_same_bytes() {
    let a = respond("/89.160.20.128", LookupOutcome::Found(linkoping_record()));
    let b = respond("/89.160.20.128", LookupOutcome::Found(linkoping_record()));
    assert_eq!(a.status, b.status);
    assert_eq!(a.body, b.body);
    assert_eq!(a.content_type, b.content_type);
    assert_eq!(route("/::1"), route("/::1"));
}

#[test]
fn database_answers_map_to_outcomes() {
    let ip = route("/192.168.0.1");
    let response = respond_to_lookup(ip, Ok(None));
    assert_eq!(response.status, 404);
    assert_eq!(response.body, "{\"error\": \"not_found\"}");
    assert_eq!(response.content_type, JSON);
    let error = maxminddb::MaxMindDbError::InvalidDatabase("bad pointer".to_string());
    let response = respond_to_lookup(ip, Err(error));
    assert_eq!(response.status, 500);
    assert_eq!(response.body, "{\"error\": \"internal_error\"}");
    let response = respond_to_lookup(route("/89.160.20.128"), Ok(Some(linkoping_record())));
    assert_eq!(response.status, 200);
    assert_eq!(response.body, linkoping_record().to_json());
    assert!(matches!(outcome_of(Ok(None)), LookupOutcome::NotFound));
    assert!(matches!(outcome_of(Ok(Some(empty_record()))), LookupOutcome::Found(_)));
    let error = maxminddb::MaxMindDbError::InvalidDatabase("bad pointer".to_string());
    assert!(matches!(outcome_of(Err(error)), LookupOutcome::Failed));
    let response = respond_to_lookup(route("/healthz"), Ok(None));
    assert_eq!(response.status, 200);
    let response = respond_to_lookup(route("/nope"), Ok(Some(empty_record())));
    assert_eq!(response.status, 400);
}

#[test]
fn absent_fields_degrade_to_empty() {
    let record = record_from_parts(RecordParts {
        latitude: None,
        longitude: Some("15.6167".to_string()),
        time_zone: None,
        iso_code: Some("SE".to_string()),
        city_names: None,
        subdivision_names: Some(vec![None, Some(names(&[("en", "Inner")]))]),
        country_names: Some(names(&[("en", "Sweden")])),
        registered_country_names: None,
    });
    assert_eq!(record.latitude, "null");
    assert_eq!(record.longitude, "15.6167");
    assert_eq!(record.time_zone, "");
    assert_eq!(record.iso_code, "SE");
    assert!(record.city_names.is_empty());
    assert_eq!(record.subdivision_names, vec![Vec::new(), names(&[("en", "Inner")])]);
    assert_eq!(record.country_names, names(&[("en", "Sweden")]));
    assert!(record.registered_country_names.is_empty());
    let none = record_from_parts(RecordParts {
        latitude: None,
        longitude: None,
        time_zone: None,
        iso_code: None,
        city_names: None,
        subdivision_names: None,
        country_names: None,
        registered_country_names: None,
    });
    assert_eq!(none.to_json(), empty_record().to_json());
}

#[test]
fn request_steps_follow_the_route() {
    match handle_request("/healthz") {
        RequestStep::Respond(r) => {
            assert_eq!(r.status, 200);
            assert_eq!(r.body, "{\"status\": \"healthy\"}");
            assert_eq!(r.content_type, JSON);
        }
        RequestStep::Lookup(_) => panic!("liveness check asks the database"),
    }
    for path in ["/invalid-ip", "/", "", "//healthz", "/999.999.999.999"] {
        match handle_request(path) {
            RequestStep::Respond(r) => {
                assert_eq!(r.status, 400);
                assert_eq!(r.body, "{\"error\": \"invalid_ip\"}");
            }
            RequestStep::Lookup(_) => panic!("{} asks the database", path),
        }
    }
    assert!(matches!(handle_request("/89.160.20.128"), RequestStep::Lookup(IpAddress::V4([89, 160, 20, 128]))));
    assert!(matches!(handle_request("/::1"), RequestStep::Lookup(IpAddress::V6([0, 0, 0, 0, 0, 0, 0, 1]))));
    let r = respond_to_answer(Ok(None));
    assert_eq!((r.status, r.body.as_str()), (404, "{\"error\": \"not_found\"}"));
    let r = respond_to_answer(Err(maxminddb::MaxMindDbError::InvalidDatabase("x".to_string())));
    assert_eq!((r.status, r.body.as_str()), (500, "{\"error\": \"internal_error\"}"));
    let r = respond_to_answer(Ok(Some(linkoping_record())));
    assert_eq!(r.status, 200);
    assert_eq!(r.content_type, JSON);
    let json: serde_json::Value = serde_json::from_str(&r.body).unwrap();
    assert_eq!(json["city"]["names"]["en"], "Linköping");
}
