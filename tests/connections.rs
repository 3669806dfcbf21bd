use huginn_profiler::connections::{
    extract_client_ip_from_headers, ConnectionKey, ConnectionTracker, HttpHeader, MAX_CONNECTIONS,
};
use huginn_profiler::observation::NetworkEndpoint;

fn header(name: &str, value: Option<&str>) -> HttpHeader {
    HttpHeader { name: name.to_string(), value: value.map(|v| v.to_string()) }
}

fn ep(ip: &str, port: u16) -> NetworkEndpoint {
    NetworkEndpoint { ip: ip.to_string(), port }
}

#[test]
fn real_ip_header_names_the_client_and_its_response() {
    let mut tracker = ConnectionTracker::new();
    let headers = vec![header("Host", Some("example.com")), header("X-Real-IP", Some("203.0.113.7"))];
    let client = ep("10.0.0.1", 40000);
    let server = ep("10.0.0.2", 80);
    let ip = tracker.observe_request(&headers, &client, &server);
    assert_eq!(ip, "203.0.113.7");
    assert_eq!(tracker.response_client_ip(&server, &client), "203.0.113.7");
}

#[test]
fn unknown_response_falls_back_to_its_destination() {
    let tracker = ConnectionTracker::new();
    assert_eq!(tracker.response_client_ip(&ep("10.0.0.2", 80), &ep("10.0.0.9", 1234)), "10.0.0.9");
}

#[test]
fn header_priority_is_real_ip_then_forwarded_then_client_ip() {
    let headers = vec![
        header("x-client-ip", Some("3.3.3.3")),
        header("X-Forwarded-For", Some("2.2.2.2, 9.9.9.9")),
        header("x-real-ip", Some("1.1.1.1")),
    ];
    assert_eq!(extract_client_ip_from_headers(&headers, "10.0.0.1"), "1.1.1.1");
    assert_eq!(extract_client_ip_from_headers(&headers[..2].to_vec_headers(), "10.0.0.1"), "2.2.2.2");
    assert_eq!(extract_client_ip_from_headers(&headers[..1].to_vec_headers(), "10.0.0.1"), "3.3.3.3");
    assert_eq!(extract_client_ip_from_headers(&Vec::new(), "10.0.0.1"), "10.0.0.1");
}

trait ToVecHeaders {
    fn to_vec_headers(&self) -> Vec<HttpHeader>;
}

impl ToVecHeaders for [HttpHeader] {
    fn to_vec_headers(&self) -> Vec<HttpHeader> {
        self.iter().map(|h| HttpHeader { name: h.name.clone(), value: h.value.clone() }).collect()
    }
}

#[test]
fn header_names_match_in_any_case() {
    let headers = vec![header("X-REAL-IP", Some("5.5.5.5"))];
    assert_eq!(extract_client_ip_from_headers(&headers, "10.0.0.1"), "5.5.5.5");
}

#[test]
fn header_without_value_is_skipped() {
    let headers = vec![header("X-Real-IP", None), header("X-Client-IP", Some("6.6.6.6"))];
    assert_eq!(extract_client_ip_from_headers(&headers, "10.0.0.1"), "6.6.6.6");
}

#[test]
fn connection_map_keeps_the_newest_hundred() {
    let mut tracker = ConnectionTracker::new();
    let server = ep("10.0.0.2", 80);
    for port in 0..101u16 {
        tracker.observe_request(&Vec::new(), &ep("10.0.0.1", 1000 + port), &server);
        assert!(tracker.entries.len() <= MAX_CONNECTIONS);
    }
    assert_eq!(tracker.entries.len(), MAX_CONNECTIONS);
    let first = ConnectionKey { source_ip: "10.0.0.1".to_string(), source_port: 1000, dest_ip: "10.0.0.2".to_string(), dest_port: 80 };
    assert_eq!(tracker.lookup(&first), None);
    let last = ConnectionKey { source_ip: "10.0.0.1".to_string(), source_port: 1100, dest_ip: "10.0.0.2".to_string(), dest_port: 80 };
    assert_eq!(tracker.lookup(&last), Some("10.0.0.1".to_string()));
}

#[test]
fn recording_a_connection_again_replaces_it() {
    let mut tracker = ConnectionTracker::new();
    let key = || ConnectionKey { source_ip: "a".to_string(), source_port: 1, dest_ip: "b".to_string(), dest_port: 2 };
    tracker.record(key(), "1.1.1.1".to_string());
    tracker.record(key(), "2.2.2.2".to_string());
    assert_eq!(tracker.entries.len(), 1);
    assert_eq!(tracker.lookup(&key()), Some("2.2.2.2".to_string()));
    tracker.enforce_connection_limit();
    assert_eq!(tracker.entries.len(), 1);
}
