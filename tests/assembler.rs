use huginn_profiler::assembler::{requester_ip, Observation, ProfileStore, MAX_PROFILES};
use huginn_profiler::ja4::{JA4Database, VerificationStatus};
use huginn_profiler::observation::{
    BrowserDetection, HttpRequestData, HttpRequestObserved, HttpResponseData,
    HttpResponseObserved, MtuData, NetworkEndpoint, OsDetection, SynAckPacketData, SynPacketData,
    TcpObserved, TlsClient, TlsClientObserved, UptimeData, WebServerDetection,
};

fn ep(ip: &str, port: u16) -> NetworkEndpoint {
    NetworkEndpoint { ip: ip.to_string(), port }
}

fn tcp_observed() -> TcpObserved {
    TcpObserved {
        version: "4".to_string(),
        initial_ttl: "64".to_string(),
        options_length: 0,
        mss: Some(1460),
        window_size: "mss*44".to_string(),
        window_scale: Some(7),
        options_layout: "mss,sok,ts,nop,ws".to_string(),
        quirks: "df,id+".to_string(),
        payload_class: "0".to_string(),
    }
}

fn syn(src: &str, dst: &str, timestamp: u64) -> Observation {
    Observation::Syn(SynPacketData {
        source: ep(src, 51000),
        destination: ep(dst, 443),
        os_detected: OsDetection { os: "Linux / unix / 2.2.x-3.x".to_string(), quality_bits: 1.0f32.to_bits() },
        signature: "4:64+0:0:1460:mss*44,7:mss,sok,ts,nop,ws:df,id+:0".to_string(),
        observed: tcp_observed(),
        timestamp,
    })
}

fn syn_ack(src: &str, dst: &str) -> Observation {
    Observation::SynAck(SynAckPacketData {
        source: ep(src, 443),
        destination: ep(dst, 51000),
        os_detected: OsDetection { os: "unknown".to_string(), quality_bits: 0.0f32.to_bits() },
        signature: "4:64+0:0:1460:mss*10,7:mss,nop,ws:df:0".to_string(),
        observed: tcp_observed(),
        timestamp: 1,
    })
}

fn mtu(src: &str, dst: &str) -> Observation {
    Observation::Mtu(MtuData {
        source: ep(src, 51000),
        destination: ep(dst, 443),
        link: "Ethernet or modem".to_string(),
        mtu_value: 1500,
        timestamp: 1,
    })
}

fn uptime(src: &str, dst: &str) -> Observation {
    Observation::Uptime(UptimeData {
        source: ep(src, 443),
        destination: ep(dst, 51000),
        uptime_seconds: 3600,
        up_mod_days: 49,
        freq_bits: 1000.0f64.to_bits(),
        timestamp: 1,
    })
}

fn http_request(src: &str, dst: &str) -> Observation {
    Observation::HttpRequest(HttpRequestData {
        source: ep(src, 51000),
        destination: ep(dst, 80),
        observed: HttpRequestObserved {
            lang: Some("English".to_string()),
            user_agent: Some("Mozilla/5.0 Firefox/126.0".to_string()),
            diagnostic: "none".to_string(),
            method: Some("GET".to_string()),
            version: "1.1".to_string(),
            headers: "Host: example.com".to_string(),
            cookies: String::new(),
            referer: None,
            uri: Some("/".to_string()),
        },
        signature: "1:Host,User-Agent::Firefox".to_string(),
        browser: BrowserDetection { browser: "Firefox/???/???".to_string(), quality_bits: 0 },
        timestamp: 1,
    })
}

fn http_response(src: &str, dst: &str) -> Observation {
    Observation::HttpResponse(HttpResponseData {
        source: ep(src, 80),
        destination: ep(dst, 51000),
        observed: HttpResponseObserved {
            server: Some("nginx".to_string()),
            version: "1.1".to_string(),
            headers: "Server: nginx".to_string(),
            status_code: Some(200),
        },
        signature: "1:Server::nginx".to_string(),
        web_server: WebServerDetection { web_server: "nginx/???/???".to_string(), quality_bits: 0 },
        timestamp: 1,
    })
}

fn tls(src: &str, dst: &str) -> Observation {
    Observation::Tls(TlsClient {
        timestamp: 1,
        source: ep(src, 51000),
        destination: ep(dst, 443),
        ja4: "t13d1517h2_8daaf6152771_b0da82dd1658".to_string(),
        ja4_raw: "t13d1517h2_002f,0035_0005,000a".to_string(),
        ja4_original: "t13d1517h2_8daaf6152771_b0da82dd1658".to_string(),
        ja4_original_raw: "t13d1517h2_002f,0035_0005,000a".to_string(),
        observed: TlsClientObserved {
            version: "1.3".to_string(),
            sni: Some("example.com".to_string()),
            alpn: Some("h2".to_string()),
            cipher_suites: vec![0x1301, 0x1302],
            extensions: vec![0, 10, 11],
            signature_algorithms: vec![0x0403],
            elliptic_curves: vec![29, 23],
        },
    })
}

#[test]
fn eviction_keeps_the_most_recent_hundred() {
    let mut store = ProfileStore::new();
    for i in 0..101u64 {
        let ip = format!("10.0.{}.{}", i / 256, i % 256);
        assert!(store.ingest_at(syn(&ip, "192.168.1.1", 1), 1_000 + i));
    }
    assert_eq!(store.len(), MAX_PROFILES);
    assert!(store.get_profile("10.0.0.0").is_none());
    for i in 1..101u64 {
        let ip = format!("10.0.{}.{}", i / 256, i % 256);
        assert!(store.get_profile(&ip).is_some(), "missing {ip}");
    }
}

#[test]
fn eviction_removes_oldest_first_when_several_must_go() {
    let mut store = ProfileStore::new();
    for i in 0..100u64 {
        store.ingest_at(syn(&format!("10.1.0.{i}"), "192.168.1.1", 1), 5_000 + i);
    }
    // Refreshing the oldest profile makes the second oldest the next to go.
    store.ingest_at(mtu("10.1.0.0", "192.168.1.1"), 9_000);
    store.ingest_at(syn("10.2.0.1", "192.168.1.1", 1), 9_001);
    assert_eq!(store.len(), 100);
    assert!(store.get_profile("10.1.0.0").is_some());
    assert!(store.get_profile("10.1.0.1").is_none());
    assert!(store.get_profile("10.2.0.1").is_some());
}

#[test]
fn store_never_exceeds_limit() {
    let mut store = ProfileStore::new();
    for i in 0..250u64 {
        store.ingest_at(tls(&format!("172.16.{}.{}", i / 200, i % 200), "1.1.1.1"), i);
        assert!(store.len() <= MAX_PROFILES);
    }
}

#[test]
fn request_and_response_meet_in_the_client_profile() {
    let mut store = ProfileStore::new();
    assert!(store.ingest_at(http_request("A", "B"), 10));
    assert!(store.ingest_at(http_response("B", "A"), 11));
    let p = store.get_profile("A").unwrap();
    assert_eq!(p.id, "A");
    assert!(p.http_request.is_some());
    assert!(p.http_response.is_some());
    assert!(store.get_profile("B").is_none());
}

#[test]
fn destination_keyed_and_source_keyed_streams() {
    let mut store = ProfileStore::new();
    store.ingest_at(syn_ack("server", "client"), 1);
    store.ingest_at(uptime("server", "client"), 2);
    store.ingest_at(syn("client", "server", 0), 3);
    store.ingest_at(mtu("client", "server"), 4);
    store.ingest_at(tls("client", "server"), 5);
    assert_eq!(store.len(), 1);
    let p = store.get_profile("client").unwrap();
    assert!(p.syn.is_some() && p.syn_ack.is_some() && p.mtu.is_some());
    assert!(p.uptime.is_some() && p.tls_client.is_some());
    assert!(store.get_profile("server").is_none());
}

#[test]
fn observation_without_client_ip_is_dropped() {
    let mut store = ProfileStore::new();
    assert!(!store.ingest_at(syn("", "192.168.1.1", 1), 1));
    assert!(!store.ingest_at(http_response("B", ""), 1));
    assert_eq!(store.len(), 0);
}

#[test]
fn later_write_of_a_kind_replaces_the_slot_only() {
    let mut store = ProfileStore::new();
    store.ingest_at(syn("10.0.0.5", "192.168.1.1", 1), 100);
    store.ingest_at(tls("10.0.0.5", "192.168.1.1"), 200);
    store.ingest_at(syn("10.0.0.5", "192.168.1.2", 2), 300);
    let p = store.get_profile("10.0.0.5").unwrap();
    let s = p.syn.unwrap();
    assert_eq!(s.destination.ip, "192.168.1.2");
    assert_eq!(s.timestamp, 2);
    assert!(p.tls_client.is_some());
    assert_eq!(p.last_seen, 300);
}

#[test]
fn last_seen_never_moves_back() {
    let mut store = ProfileStore::new();
    store.ingest_at(syn("10.0.0.6", "192.168.1.1", 1), 2_000);
    store.ingest_at(mtu("10.0.0.6", "192.168.1.1"), 1_000);
    assert_eq!(store.get_profile("10.0.0.6").unwrap().last_seen, 2_000);
}

#[test]
fn last_seen_covers_observation_times() {
    let mut store = ProfileStore::new();
    store.ingest_at(syn("10.0.0.7", "192.168.1.1", 1_700_000_000), 1_700_000_000_500);
    let p = store.get_profile("10.0.0.7").unwrap();
    assert!(p.last_seen >= p.syn.unwrap().timestamp * 1000);
}

#[test]
fn ingest_with_clock_stamps_current_time() {
    let mut store = ProfileStore::new();
    assert!(store.ingest(syn("10.0.0.8", "192.168.1.1", 1)));
    let p = store.get_profile("10.0.0.8").unwrap();
    assert!(p.last_seen > 1_600_000_000_000);
}

#[test]
fn stats_classify_profiles() {
    let mut store = ProfileStore::new();
    store.ingest_at(syn("tcp-only", "s", 1), 1);
    store.ingest_at(http_request("http-only", "s"), 2);
    store.ingest_at(tls("tls-only", "s"), 3);
    store.ingest_at(http_response("s", "complete"), 4);
    store.ingest_at(tls("complete", "s"), 5);
    let stats = store.get_stats();
    assert_eq!(stats.total_profiles, 4);
    assert_eq!(stats.tcp_profiles, 1);
    assert_eq!(stats.http_profiles, 2);
    assert_eq!(stats.tls_profiles, 2);
    assert_eq!(stats.complete_profiles, 1);
    assert_eq!(store.profiles().len(), 4);
    assert_eq!(store.summaries().len(), 4);
}

#[test]
fn requester_ip_from_forwarding_headers() {
    assert_eq!(requester_ip(Some("203.0.113.7"), Some("1.1.1.1")), Some("203.0.113.7".to_string()));
    assert_eq!(requester_ip(None, Some("198.51.100.2, 10.0.0.1")), Some("198.51.100.2".to_string()));
    assert_eq!(requester_ip(None, Some("  198.51.100.3 ,x")), Some("198.51.100.3".to_string()));
    assert_eq!(requester_ip(None, None), None);
}

#[test]
fn profile_validation_needs_both_sides() {
    let db = JA4Database::from_json(
        r#"[{"ja4_fingerprint":"t13d1517h2_8daaf6152771_b0da82dd1658","user_agent_string":"Mozilla/5.0 Firefox/126.0","application":"Firefox","verified":true}]"#,
    )
    .unwrap();
    let mut store = ProfileStore::new();
    store.ingest_at(tls("10.0.0.9", "1.1.1.1"), 1);
    let only_tls = store.get_profile("10.0.0.9").unwrap();
    let r = db.validate_profile(&only_tls);
    assert!(!r.is_consistent);
    assert_eq!(r.confidence_percent, 0);
    assert!(r.anomalies.is_empty());
    assert!(matches!(r.verification_status, VerificationStatus::InsufficientData));

    store.ingest_at(http_request("10.0.0.9", "1.1.1.1"), 2);
    let both = store.get_profile("10.0.0.9").unwrap();
    let r = db.validate_profile(&both);
    assert!(r.is_consistent);
    assert_eq!(r.confidence_percent, 95);
    assert_eq!(r.detected_application, Some("Firefox".to_string()));
}
