//! The observation payloads that collectors send and the assembler stores.
//!
//! Match qualities and clock frequencies are floating-point values on the wire;
//! here they are carried as their IEEE-754 bit patterns, which round-trip exactly.

use vstd::prelude::*;
use crate::connections::HttpHeader;

verus! {

/// One side of a connection.
#[derive(Clone, Debug)]
pub struct NetworkEndpoint {
    pub ip: String,
    pub port: u16,
}

/// The operating system a TCP signature matched.
#[derive(Clone, Debug)]
pub struct OsDetection {
    pub os: String,
    /// Bit pattern of the `f32` match quality, in `[0, 1]`.
    pub quality_bits: u32,
}

/// The verbatim TCP/IP features of a SYN or SYN-ACK.
#[derive(Clone, Debug)]
pub struct TcpObserved {
    pub version: String,
    pub initial_ttl: String,
    pub options_length: u8,
    pub mss: Option<u16>,
    pub window_size: String,
    pub window_scale: Option<u8>,
    pub options_layout: String,
    pub quirks: String,
    pub payload_class: String,
}

#[derive(Clone, Debug)]
pub struct SynPacketData {
    pub source: NetworkEndpoint,
    pub destination: NetworkEndpoint,
    pub os_detected: OsDetection,
    pub signature: String,
    pub observed: TcpObserved,
    pub timestamp: u64,
}

#[derive(Clone, Debug)]
pub struct SynAckPacketData {
    pub source: NetworkEndpoint,
    pub destination: NetworkEndpoint,
    pub os_detected: OsDetection,
    pub signature: String,
    pub observed: TcpObserved,
    pub timestamp: u64,
}

#[derive(Clone, Debug)]
pub struct MtuData {
    pub source: NetworkEndpoint,
    pub destination: NetworkEndpoint,
    pub link: String,
    pub mtu_value: u16,
    pub timestamp: u64,
}

#[derive(Clone, Debug)]
pub struct UptimeData {
    pub source: NetworkEndpoint,
    pub destination: NetworkEndpoint,
    pub uptime_seconds: u64,
    pub up_mod_days: u32,
    /// Bit pattern of the `f64` clock frequency.
    pub freq_bits: u64,
    pub timestamp: u64,
}

/// The browser an HTTP request signature matched.
#[derive(Clone, Debug)]
pub struct BrowserDetection {
    pub browser: String,
    /// Bit pattern of the `f32` match quality.
    pub quality_bits: u32,
}

#[derive(Clone, Debug)]
pub struct HttpRequestObserved {
    pub lang: Option<String>,
    pub user_agent: Option<String>,
    pub diagnostic: String,
    pub method: Option<String>,
    pub version: String,
    pub headers: String,
    pub cookies: String,
    pub referer: Option<String>,
    pub uri: Option<String>,
}

#[derive(Clone, Debug)]
pub struct HttpRequestData {
    pub source: NetworkEndpoint,
    pub destination: NetworkEndpoint,
    pub observed: HttpRequestObserved,
    pub signature: String,
    pub browser: BrowserDetection,
    pub timestamp: u64,
}

/// The web server an HTTP response signature matched.
#[derive(Clone, Debug)]
pub struct WebServerDetection {
    pub web_server: String,
    /// Bit pattern of the `f32` match quality.
    pub quality_bits: u32,
}

#[derive(Clone, Debug)]
pub struct HttpResponseObserved {
    pub server: Option<String>,
    pub version: String,
    pub headers: String,
    pub status_code: Option<u16>,
}

#[derive(Clone, Debug)]
pub struct HttpResponseData {
    pub source: NetworkEndpoint,
    pub destination: NetworkEndpoint,
    pub observed: HttpResponseObserved,
    pub signature: String,
    pub web_server: WebServerDetection,
    pub timestamp: u64,
}

#[derive(Clone, Debug)]
pub struct TlsClientObserved {
    pub version: String,
    pub sni: Option<String>,
    pub alpn: Option<String>,
    pub cipher_suites: Vec<u16>,
    pub extensions: Vec<u16>,
    pub signature_algorithms: Vec<u16>,
    pub elliptic_curves: Vec<u16>,
}

/// A TLS ClientHello and its JA4 fingerprints.
#[derive(Clone, Debug)]
pub struct TlsClient {
    pub timestamp: u64,
    pub source: NetworkEndpoint,
    pub destination: NetworkEndpoint,
    pub ja4: String,
    pub ja4_raw: String,
    /// The fingerprint before extension deduplication.
    pub ja4_original: String,
    pub ja4_original_raw: String,
    pub observed: TlsClientObserved,
}

pub open spec fn opt_str(o: Option<&str>) -> Option<Seq<char>> {
    match o {
        Some(s) => Some(s@),
        None => None,
    }
}

/// An OS name followed by its family and variant where known, joined by " / ".
pub open spec fn os_label(name: Seq<char>, family: Option<Seq<char>>, variant: Option<Seq<char>>) -> Seq<
    char,
> {
    name + match family {
        Some(f) => " / "@ + f,
        None => Seq::empty(),
    } + match variant {
        Some(v) => " / "@ + v,
        None => Seq::empty(),
    }
}

/// Labels a matched operating system.
pub fn format_os(name: &str, family: Option<&str>, variant: Option<&str>) -> (r: String)
    ensures
        r@ == os_label(name@, opt_str(family), opt_str(variant)),
{
    let mut out = String::from_str(name);
    if let Some(f) = family {
        out.append(" / ");
        out.append(f);
    }
    if let Some(v) = variant {
        out.append(" / ");
        out.append(v);
    }
    proof {
        assert(out@ =~= os_label(name@, opt_str(family), opt_str(variant)));
    }
    out
}

/// A matched browser or web server as `name/family/variant`, with `???` for an
/// unknown part; `unknown` when nothing matched.
pub open spec fn match_label(name: Option<Seq<char>>, family: Option<Seq<char>>, variant: Option<Seq<char>>) -> Seq<
    char,
> {
    match name {
        None => "unknown"@,
        Some(n) => n + "/"@ + match family {
            Some(f) => f,
            None => "???"@,
        } + "/"@ + match variant {
            Some(v) => v,
            None => "???"@,
        },
    }
}

/// Labels a matched browser or web server.
pub fn detection_label(name: Option<&str>, family: Option<&str>, variant: Option<&str>) -> (r: String)
    ensures
        r@ == match_label(opt_str(name), opt_str(family), opt_str(variant)),
{
    let n = match name {
        Some(n) => n,
        None => return String::from_str("unknown"),
    };
    let mut out = String::from_str(n);
    out.append("/");
    out.append(match family {
        Some(f) => f,
        None => "???",
    });
    out.append("/");
    out.append(match variant {
        Some(v) => v,
        None => "???",
    });
    proof {
        assert(out@ =~= match_label(opt_str(name), opt_str(family), opt_str(variant)));
    }
    out
}

/// The parts joined with `sep` between neighbours.
pub open spec fn joined(parts: Seq<Seq<char>>, sep: Seq<char>) -> Seq<char>
    decreases parts.len(),
{
    if parts.len() == 0 {
        Seq::empty()
    } else if parts.len() == 1 {
        parts[0]
    } else {
        joined(parts.drop_last(), sep) + sep + parts.last()
    }
}

pub open spec fn strings_of(v: Seq<String>) -> Seq<Seq<char>> {
    v.map_values(|s: String| s@)
}

/// Joins strings with a separator.
pub fn join_with(parts: &Vec<String>, sep: &str) -> (r: String)
    ensures
        r@ == joined(strings_of(parts@), sep@),
{
    let ghost pv = strings_of(parts@);
    let mut out = String::new();
    let mut i: usize = 0;
    assert(pv.take(0) =~= Seq::<Seq<char>>::empty());
    while i < parts.len()
        invariant
            i <= parts@.len(),
            pv == strings_of(parts@),
            out@ == joined(pv.take(i as int), sep@),
        decreases parts@.len() - i,
    {
        assert(pv.take(i + 1).drop_last() =~= pv.take(i as int));
        if i > 0 {
            out.append(sep);
        }
        out.append(parts[i].as_str());
        proof {
            if i == 0 {
                assert(out@ =~= pv.take(1)[0]);
            }
        }
        i = i + 1;
    }
    assert(pv.take(i as int) =~= pv);
    out
}

/// One header as `name: value`, an absent value written as empty.
pub open spec fn header_line(h: HttpHeader) -> Seq<char> {
    h.name@ + ": "@ + match h.value {
        Some(v) => v@,
        None => Seq::empty(),
    }
}

/// Writes headers (or cookies) as `name: value` items separated by ", ".
pub fn header_lines(headers: &Vec<HttpHeader>) -> (r: String)
    ensures
        r@ == joined(headers@.map_values(|h: HttpHeader| header_line(h)), ", "@),
{
    let mut lines: Vec<String> = Vec::new();
    let mut i: usize = 0;
    while i < headers.len()
        invariant
            i <= headers@.len(),
            strings_of(lines@) == headers@.take(i as int).map_values(|h: HttpHeader| header_line(h)),
        decreases headers@.len() - i,
    {
        let h = &headers[i];
        let mut line = h.name.clone();
        line.append(": ");
        if let Some(v) = &h.value {
            line.append(v.as_str());
        }
        assert(line@ =~= header_line(*h));
        let ghost prev = lines@;
        lines.push(line);
        assert(headers@.take(i + 1) =~= headers@.take(i as int).push(*h));
        assert(strings_of(lines@) =~= strings_of(prev).push(line@));
        assert(strings_of(lines@) =~= headers@.take(i + 1).map_values(|h: HttpHeader| header_line(h)));
        i = i + 1;
    }
    assert(headers@.take(i as int) =~= headers@);
    join_with(&lines, ", ")
}

/// Uptime in seconds from days, hours and minutes.
pub fn uptime_seconds(days: u32, hours: u32, minutes: u32) -> (r: u64)
    ensures
        r == days as int * 86400 + hours as int * 3600 + minutes as int * 60,
{
    days as u64 * 86400 + hours as u64 * 3600 + minutes as u64 * 60
}

/// The kinds of observation, one ingest endpoint each.
pub enum ObservationKind {
    Syn,
    SynAck,
    Mtu,
    Uptime,
    HttpRequest,
    HttpResponse,
    Tls,
}

/// The path of a kind's ingest endpoint below the assembler's base URL.
pub open spec fn kind_path(k: ObservationKind) -> Seq<char> {
    match k {
        ObservationKind::Syn => "/syn"@,
        ObservationKind::SynAck => "/syn_ack"@,
        ObservationKind::Mtu => "/mtu"@,
        ObservationKind::Uptime => "/uptime"@,
        ObservationKind::HttpRequest => "/http_request"@,
        ObservationKind::HttpResponse => "/http_response"@,
        ObservationKind::Tls => "/tls"@,
    }
}

/// The URL an observation of kind `kind` is posted to.
pub fn ingest_url(base: &str, kind: ObservationKind) -> (r: String)
    ensures
        r@ == base@ + kind_path(kind),
{
    let mut out = String::from_str(base);
    out.append(
        match kind {
            ObservationKind::Syn => "/syn",
            ObservationKind::SynAck => "/syn_ack",
            ObservationKind::Mtu => "/mtu",
            ObservationKind::Uptime => "/uptime",
            ObservationKind::HttpRequest => "/http_request",
            ObservationKind::HttpResponse => "/http_response",
            ObservationKind::Tls => "/tls",
        },
    );
    out
}

} // verus!
