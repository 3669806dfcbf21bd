//! Real-client-IP resolution in the HTTP collector.
//!
//! Behind a reverse proxy the TCP source of a request is the proxy. The client
//! is named by forwarding headers instead; the resolved IP is remembered per
//! connection so that the response, seen with the tuple reversed, is credited
//! to the same client.

use vstd::prelude::*;
use crate::observation::NetworkEndpoint;
use crate::text::{comma_prefix, first_comma_field, lower_of, to_lower};

verus! {

/// The most connections remembered.
pub const MAX_CONNECTIONS: usize = 100;

/// One HTTP header as captured: its name and its value, if it had one.
#[derive(Debug)]
pub struct HttpHeader {
    pub name: String,
    pub value: Option<String>,
}

pub open spec fn header_view(h: HttpHeader) -> (Seq<char>, Option<Seq<char>>) {
    (
        h.name@,
        match h.value {
            Some(v) => Some(v@),
            None => None,
        },
    )
}

pub open spec fn headers_view(hs: Seq<HttpHeader>) -> Seq<(Seq<char>, Option<Seq<char>>)> {
    hs.map_values(|h: HttpHeader| header_view(h))
}

/// The value of the first header whose name lower-cases to `name`
/// (`Some(None)` when that header has no value; `None` when there is no such header).
pub open spec fn first_named(hs: Seq<(Seq<char>, Option<Seq<char>>)>, name: Seq<char>) -> Option<
    Option<Seq<char>>,
>
    decreases hs.len(),
{
    if hs.len() == 0 {
        None
    } else {
        match first_named(hs.drop_last(), name) {
            Some(v) => Some(v),
            None => if lower_of(hs.last().0) == name {
                Some(hs.last().1)
            } else {
                None
            },
        }
    }
}

/// The client a request came from: `X-Real-IP`, else the first element of
/// `X-Forwarded-For`, else `X-Client-IP`, else the TCP source `fallback`.
pub open spec fn client_ip_of(hs: Seq<(Seq<char>, Option<Seq<char>>)>, fallback: Seq<char>) -> Seq<
    char,
> {
    match first_named(hs, "x-real-ip"@) {
        Some(Some(v)) => v,
        _ => match first_named(hs, "x-forwarded-for"@) {
            Some(Some(v)) => comma_prefix(v),
            _ => match first_named(hs, "x-client-ip"@) {
                Some(Some(v)) => v,
                _ => fallback,
            },
        },
    }
}

/// The value of the first header whose lower-cased name is `name`.
fn find_header(headers: &Vec<HttpHeader>, name: &str) -> (r: Option<Option<String>>)
    ensures
        match r {
            Some(Some(v)) => first_named(headers_view(headers@), name@) == Some(Some(v@)),
            Some(None) => first_named(headers_view(headers@), name@) == Some(None::<Seq<char>>),
            None => first_named(headers_view(headers@), name@) is None,
        },
{
    let ghost hv = headers_view(headers@);
    let target = String::from_str(name);
    let mut found: Option<Option<String>> = None;
    let mut i: usize = 0;
    while i < headers.len()
        invariant
            i <= headers@.len(),
            hv == headers_view(headers@),
            target@ == name@,
            match found {
                Some(Some(v)) => first_named(hv.take(i as int), name@) == Some(Some(v@)),
                Some(None) => first_named(hv.take(i as int), name@) == Some(None::<Seq<char>>),
                None => first_named(hv.take(i as int), name@) is None,
            },
        decreases headers@.len() - i,
    {
        assert(hv.take(i + 1).drop_last() =~= hv.take(i as int));
        assert(hv.take(i + 1).last() == header_view(headers@[i as int]));
        if found.is_none() {
            let lowered = to_lower(headers[i].name.as_str());
            if lowered == target {
                found = Some(
                    match &headers[i].value {
                        Some(v) => Some(v.clone()),
                        None => None,
                    },
                );
            }
        }
        i = i + 1;
    }
    assert(hv.take(i as int) =~= hv);
    found
}

/// Resolves the real client IP of a request from its headers.
pub fn extract_client_ip_from_headers(headers: &Vec<HttpHeader>, fallback_ip: &str) -> (r: String)
    ensures
        r@ == client_ip_of(headers_view(headers@), fallback_ip@),
{
    if let Some(Some(v)) = find_header(headers, "x-real-ip") {
        return v;
    }
    if let Some(Some(v)) = find_header(headers, "x-forwarded-for") {
        return first_comma_field(v.as_str());
    }
    if let Some(Some(v)) = find_header(headers, "x-client-ip") {
        return v;
    }
    String::from_str(fallback_ip)
}

/// A TCP connection, as seen on the request.
#[derive(Debug)]
pub struct ConnectionKey {
    pub source_ip: String,
    pub source_port: u16,
    pub dest_ip: String,
    pub dest_port: u16,
}

pub open spec fn key_view(k: ConnectionKey) -> (Seq<char>, u16, Seq<char>, u16) {
    (k.source_ip@, k.source_port, k.dest_ip@, k.dest_port)
}

impl ConnectionKey {
    /// The connection a request from `source` to `destination` travels on.
    pub fn of_request(source: &NetworkEndpoint, destination: &NetworkEndpoint) -> (r: ConnectionKey)
        ensures
            key_view(r) == (source.ip@, source.port, destination.ip@, destination.port),
    {
        ConnectionKey {
            source_ip: source.ip.clone(),
            source_port: source.port,
            dest_ip: destination.ip.clone(),
            dest_port: destination.port,
        }
    }

    /// Whether two keys name the same connection.
    pub fn same(&self, other: &ConnectionKey) -> (r: bool)
        ensures
            r == (key_view(*self) == key_view(*other)),
    {
        self.source_ip == other.source_ip && self.source_port == other.source_port && self.dest_ip
            == other.dest_ip && self.dest_port == other.dest_port
    }
}

/// A remembered connection: its real client and when it was recorded.
#[derive(Debug)]
pub struct ConnectionInfo {
    pub key: ConnectionKey,
    pub real_ip: String,
    pub stamp: u64,
}

/// The connections recently seen on requests, each with its real client.
#[derive(Debug)]
pub struct ConnectionTracker {
    pub entries: Vec<ConnectionInfo>,
    /// The stamp the next recorded connection gets.
    pub next_stamp: u64,
}

/// `after` keeps the most recently recorded of `before`, down to `MAX_CONNECTIONS`.
pub open spec fn trimmed_connections(before: Seq<ConnectionInfo>, after: Seq<ConnectionInfo>) -> bool {
    &&& before.len() <= MAX_CONNECTIONS ==> after == before
    &&& before.len() > MAX_CONNECTIONS ==> after.len() == MAX_CONNECTIONS
    &&& forall|i: int| 0 <= i < after.len() ==> before.contains(#[trigger] after[i])
    &&& forall|i: int, j: int|
        0 <= i < before.len() && !after.contains(#[trigger] before[i]) && 0 <= j < after.len()
            ==> before[i].stamp <= #[trigger] after[j].stamp
}

impl ConnectionTracker {
    /// Each connection is remembered once.
    pub open spec fn wf(&self) -> bool {
        forall|i: int, j: int|
            0 <= i < j < self.entries@.len() ==> key_view(#[trigger] self.entries@[i].key) != key_view(
                #[trigger] self.entries@[j].key,
            )
    }

    /// The real client remembered for `key`.
    pub open spec fn remembered(&self, key: (Seq<char>, u16, Seq<char>, u16)) -> Option<Seq<char>> {
        if exists|i: int| 0 <= i < self.entries@.len() && key_view(#[trigger] self.entries@[i].key) == key {
            let i = choose|i: int|
                0 <= i < self.entries@.len() && key_view(#[trigger] self.entries@[i].key) == key;
            Some(self.entries@[i].real_ip@)
        } else {
            None
        }
    }

    pub fn new() -> (r: ConnectionTracker)
        ensures
            r.wf(),
            r.entries@.len() == 0,
    {
        ConnectionTracker { entries: Vec::new(), next_stamp: 0 }
    }

    fn position(&self, key: &ConnectionKey) -> (r: Option<usize>)
        ensures
            match r {
                Some(i) => i < self.entries@.len() && key_view(self.entries@[i as int].key) == key_view(*key),
                None => forall|i: int| 0 <= i < self.entries@.len() ==> key_view(#[trigger] self.entries@[i].key) != key_view(*key),
            },
    {
        let mut i: usize = 0;
        while i < self.entries.len()
            invariant
                i <= self.entries@.len(),
                forall|j: int| 0 <= j < i ==> key_view(#[trigger] self.entries@[j].key) != key_view(*key),
            decreases self.entries@.len() - i,
        {
            if self.entries[i].key.same(key) {
                return Some(i);
            }
            i = i + 1;
        }
        None
    }

    /// The real client remembered for a connection.
    pub fn lookup(&self, key: &ConnectionKey) -> (r: Option<String>)
        requires
            self.wf(),
        ensures
            match r {
                Some(ip) => self.remembered(key_view(*key)) == Some(ip@),
                None => self.remembered(key_view(*key)) is None,
            },
    {
        match self.position(key) {
            Some(i) => {
                let ghost k = key_view(*key);
                let ghost c = choose|c: int|
                    0 <= c < self.entries@.len() && key_view(#[trigger] self.entries@[c].key) == k;
                assert(c == i as int) by {
                    if c != i as int {
                        if c < i {
                            assert(key_view(self.entries@[c].key) != key_view(self.entries@[i as int].key));
                        } else {
                            assert(key_view(self.entries@[i as int].key) != key_view(self.entries@[c].key));
                        }
                    }
                }
                Some(self.entries[i].real_ip.clone())
            },
            None => None,
        }
    }

    /// Remembers the real client of a connection, replacing what was remembered for it.
    pub fn record(&mut self, key: ConnectionKey, real_ip: String)
        requires
            old(self).wf(),
        ensures
            final(self).wf(),
            ({
                let info = ConnectionInfo { key, real_ip, stamp: old(self).next_stamp };
                match old(self).position_spec(key_view(key)) {
                    Some(i) => final(self).entries@ == old(self).entries@.update(i, info),
                    None => final(self).entries@ == old(self).entries@.push(info),
                }
            }),
            final(self).next_stamp >= old(self).next_stamp,
    {
        let stamp = self.next_stamp;
        if self.next_stamp < u64::MAX {
            self.next_stamp = self.next_stamp + 1;
        }
        let ghost old_entries = self.entries@;
        match self.position(&key) {
            Some(i) => {
                proof {
                    self.lemma_position_unique(key_view(key), i as int);
                }
                self.entries.set(i, ConnectionInfo { key, real_ip, stamp });
            },
            None => {
                self.entries.push(ConnectionInfo { key, real_ip, stamp });
            },
        }
    }

    /// The position of the entry for `key`, if any.
    pub open spec fn position_spec(&self, key: (Seq<char>, u16, Seq<char>, u16)) -> Option<int> {
        if exists|i: int| 0 <= i < self.entries@.len() && key_view(#[trigger] self.entries@[i].key) == key {
            Some(
                choose|i: int|
                    0 <= i < self.entries@.len() && key_view(#[trigger] self.entries@[i].key) == key,
            )
        } else {
            None
        }
    }

    proof fn lemma_position_unique(&self, key: (Seq<char>, u16, Seq<char>, u16), i: int)
        requires
            self.wf(),
            0 <= i < self.entries@.len(),
            key_view(self.entries@[i].key) == key,
        ensures
            self.position_spec(key) == Some(i),
    {
        let c = choose|c: int| 0 <= c < self.entries@.len() && key_view(#[trigger] self.entries@[c].key) == key;
        if c != i {
            if c < i {
                assert(key_view(self.entries@[c].key) != key_view(self.entries@[i].key));
            } else {
                assert(key_view(self.entries@[i].key) != key_view(self.entries@[c].key));
            }
        }
    }
    /// Forgets the least recently recorded connections until at most
    /// `MAX_CONNECTIONS` remain.
    pub fn enforce_connection_limit(&mut self)
        requires
            old(self).wf(),
        ensures
            final(self).wf(),
            final(self).next_stamp == old(self).next_stamp,
            trimmed_connections(old(self).entries@, final(self).entries@),
    {
        let ghost before = self.entries@;
        if self.entries.len() <= MAX_CONNECTIONS {
            return;
        }
        let to_remove = self.entries.len() - MAX_CONNECTIONS;
        let mut removed: usize = 0;
        while removed < to_remove
            invariant
                before.len() > MAX_CONNECTIONS,
                to_remove == before.len() - MAX_CONNECTIONS,
                removed <= to_remove,
                self.entries@.len() + removed == before.len(),
                self.wf(),
                self.next_stamp == old(self).next_stamp,
                forall|i: int| 0 <= i < self.entries@.len() ==> before.contains(#[trigger] self.entries@[i]),
                forall|i: int| 0 <= i < before.len() && !self.entries@.contains(#[trigger] before[i]) ==>
                    forall|j: int| 0 <= j < self.entries@.len() ==> before[i].stamp <= #[trigger] self.entries@[j].stamp,
            decreases to_remove - removed,
        {
            let ghost e0 = self.entries@;
            let mut best: usize = 0;
            let mut i: usize = 1;
            while i < self.entries.len()
                invariant
                    e0 == self.entries@,
                    1 <= i <= e0.len(),
                    best < i,
                    forall|j: int| 0 <= j < i ==> e0[best as int].stamp <= #[trigger] e0[j].stamp,
                decreases e0.len() - i,
            {
                if self.entries[i].stamp < self.entries[best].stamp {
                    best = i;
                }
                i = i + 1;
            }
            let victim = self.entries.remove(best);
            let ghost e1 = self.entries@;
            assert forall|x: int| 0 <= x < e1.len() implies e0.contains(#[trigger] e1[x]) by {
                if x < best {
                    assert(e1[x] == e0[x]);
                } else {
                    assert(e1[x] == e0[x + 1]);
                }
            }
            assert forall|a: int, b: int| 0 <= a < b < e1.len() implies key_view(#[trigger] e1[a].key) != key_view(
                #[trigger] e1[b].key,
            ) by {
                let a0 = if a < best { a } else { a + 1 };
                let b0 = if b < best { b } else { b + 1 };
                assert(e1[a] == e0[a0] && e1[b] == e0[b0]);
            }
            assert forall|x: int| 0 <= x < before.len() && !e1.contains(#[trigger] before[x]) implies
                forall|j: int| 0 <= j < e1.len() ==> before[x].stamp <= #[trigger] e1[j].stamp by {
                assert forall|j: int| 0 <= j < e1.len() implies before[x].stamp <= #[trigger] e1[j].stamp by {
                    let j0 = if j < best { j } else { j + 1 };
                    assert(e1[j] == e0[j0]);
                    if e0.contains(before[x]) {
                        let w = choose|w: int| 0 <= w < e0.len() && e0[w] == before[x];
                        if w != best {
                            let w1 = if w < best { w } else { w - 1 };
                            assert(e1[w1] == e0[w]);
                        }
                    }
                }
            }
            removed = removed + 1;
        }
    }

    /// Resolves and remembers the real client of a request on the connection
    /// from `source` to `destination`, then trims the remembered connections.
    pub fn observe_request(
        &mut self,
        headers: &Vec<HttpHeader>,
        source: &NetworkEndpoint,
        destination: &NetworkEndpoint,
    ) -> (r: String)
        requires
            old(self).wf(),
        ensures
            final(self).wf(),
            r@ == client_ip_of(headers_view(headers@), source.ip@),
    {
        let real_ip = extract_client_ip_from_headers(headers, source.ip.as_str());
        let key = ConnectionKey::of_request(source, destination);
        self.record(key, real_ip.clone());
        self.enforce_connection_limit();
        real_ip
    }

    /// The real client of a response from `source` to `destination`: the one
    /// remembered for the reversed connection, else the response's destination.
    pub fn response_client_ip(&self, source: &NetworkEndpoint, destination: &NetworkEndpoint) -> (r: String)
        requires
            self.wf(),
        ensures
            r@ == match self.remembered((destination.ip@, destination.port, source.ip@, source.port)) {
                Some(ip) => ip,
                None => destination.ip@,
            },
    {
        let key = ConnectionKey::of_request(destination, source);
        match self.lookup(&key) {
            Some(ip) => ip,
            None => destination.ip.clone(),
        }
    }
}

} // verus!
