//! The profile assembler: one profile per client IP, merged from independent
//! observation streams, bounded in number by evicting the least recently seen.

use vstd::prelude::*;
use dashmap::DashMap;
use crate::observation::{
    HttpRequestData, HttpResponseData, MtuData, NetworkEndpoint, SynAckPacketData, SynPacketData,
    TlsClient, UptimeData,
};
use crate::text::{comma_prefix, first_comma_field, trim, trimmed_of};

verus! {

/// The most profiles the store keeps.
pub const MAX_PROFILES: usize = 100;

/// Everything observed about one client IP.
#[derive(Clone, Debug)]
pub struct Profile {
    /// The client IP; equal to the key the profile is stored under.
    pub id: String,
    pub timestamp: u64,
    pub syn: Option<SynPacketData>,
    pub syn_ack: Option<SynAckPacketData>,
    pub mtu: Option<MtuData>,
    pub uptime: Option<UptimeData>,
    pub http_request: Option<HttpRequestData>,
    pub http_response: Option<HttpResponseData>,
    pub tls_client: Option<TlsClient>,
    /// Milliseconds since the Unix epoch of the latest ingest into this profile.
    pub last_seen: u64,
}

/// One observation, of any of the kinds a profile has a slot for.
#[derive(Debug)]
pub enum Observation {
    Syn(SynPacketData),
    SynAck(SynAckPacketData),
    Mtu(MtuData),
    Uptime(UptimeData),
    HttpRequest(HttpRequestData),
    HttpResponse(HttpResponseData),
    Tls(TlsClient),
}

impl Observation {
    /// The endpoint of the profiled client: the source of what the client sent,
    /// the destination of what was sent to it.
    pub open spec fn client(&self) -> NetworkEndpoint {
        match self {
            Observation::Syn(d) => d.source,
            Observation::SynAck(d) => d.destination,
            Observation::Mtu(d) => d.source,
            Observation::Uptime(d) => d.destination,
            Observation::HttpRequest(d) => d.source,
            Observation::HttpResponse(d) => d.destination,
            Observation::Tls(d) => d.source,
        }
    }

    /// When the collector made the observation, in seconds since the Unix epoch.
    pub open spec fn observed_at(&self) -> u64 {
        match self {
            Observation::Syn(d) => d.timestamp,
            Observation::SynAck(d) => d.timestamp,
            Observation::Mtu(d) => d.timestamp,
            Observation::Uptime(d) => d.timestamp,
            Observation::HttpRequest(d) => d.timestamp,
            Observation::HttpResponse(d) => d.timestamp,
            Observation::Tls(d) => d.timestamp,
        }
    }

    /// The IP of the profile this observation belongs to.
    pub fn profile_key(&self) -> (r: &String)
        ensures
            *r == self.client().ip,
    {
        match self {
            Observation::Syn(d) => &d.source.ip,
            Observation::SynAck(d) => &d.destination.ip,
            Observation::Mtu(d) => &d.source.ip,
            Observation::Uptime(d) => &d.destination.ip,
            Observation::HttpRequest(d) => &d.source.ip,
            Observation::HttpResponse(d) => &d.destination.ip,
            Observation::Tls(d) => &d.source.ip,
        }
    }
}

/// `p` with the slot for `o`'s kind holding `o`.
pub open spec fn with_observation(p: Profile, o: Observation) -> Profile {
    match o {
        Observation::Syn(d) => Profile { syn: Some(d), ..p },
        Observation::SynAck(d) => Profile { syn_ack: Some(d), ..p },
        Observation::Mtu(d) => Profile { mtu: Some(d), ..p },
        Observation::Uptime(d) => Profile { uptime: Some(d), ..p },
        Observation::HttpRequest(d) => Profile { http_request: Some(d), ..p },
        Observation::HttpResponse(d) => Profile { http_response: Some(d), ..p },
        Observation::Tls(d) => Profile { tls_client: Some(d), ..p },
    }
}

pub open spec fn max_u64(a: u64, b: u64) -> u64 {
    if a < b {
        b
    } else {
        a
    }
}

/// The profile stored under `ip` (or an empty one), with its id set to `ip` and
/// `last_seen` advanced to `now` unless it is already later.
pub open spec fn touched(t: Map<Seq<char>, Profile>, ip: String, now: u64) -> Profile {
    if t.contains_key(ip@) {
        Profile { id: ip, last_seen: max_u64(t[ip@].last_seen, now), ..t[ip@] }
    } else {
        Profile {
            id: ip,
            timestamp: 0,
            syn: None,
            syn_ack: None,
            mtu: None,
            uptime: None,
            http_request: None,
            http_response: None,
            tls_client: None,
            last_seen: now,
        }
    }
}

/// The table right after `o` is merged in at time `now`, before eviction.
pub open spec fn upserted(t: Map<Seq<char>, Profile>, o: Observation, now: u64) -> Map<
    Seq<char>,
    Profile,
> {
    t.insert(o.client().ip@, with_observation(touched(t, o.client().ip, now), o))
}

/// `after` is `before` with its least recently seen profiles removed, down to
/// `MAX_PROFILES`.
pub open spec fn trimmed(before: Map<Seq<char>, Profile>, after: Map<Seq<char>, Profile>) -> bool {
    &&& before.dom().len() <= MAX_PROFILES ==> after == before
    &&& before.dom().len() > MAX_PROFILES ==> after.dom().len() == MAX_PROFILES
    &&& forall|k: Seq<char>| #[trigger] after.contains_key(k) ==> before.contains_key(k) && after[k] == before[k]
    &&& forall|gone: Seq<char>, kept: Seq<char>|
        before.contains_key(gone) && !after.contains_key(gone) && #[trigger] after.contains_key(kept)
            ==> #[trigger] before[gone].last_seen <= before[kept].last_seen
}

/// What a snapshot reports of one profile.
#[derive(Debug)]
pub struct ProfileSummary {
    pub id: String,
    pub last_seen: u64,
    /// Some TCP-level slot (SYN, SYN-ACK, MTU, uptime) is filled.
    pub tcp: bool,
    /// The HTTP request or response slot is filled.
    pub http: bool,
    /// The TLS slot is filled.
    pub tls: bool,
}

pub open spec fn summarizes(s: ProfileSummary, k: Seq<char>, p: Profile) -> bool {
    &&& s.id@ == k
    &&& s.last_seen == p.last_seen
    &&& s.tcp == (p.syn is Some || p.syn_ack is Some || p.mtu is Some || p.uptime is Some)
    &&& s.http == (p.http_request is Some || p.http_response is Some)
    &&& s.tls == (p.tls_client is Some)
}

/// `l` lists every profile of `t` exactly once.
pub open spec fn lists(l: Seq<ProfileSummary>, t: Map<Seq<char>, Profile>) -> bool {
    &&& l.len() == t.dom().len()
    &&& forall|i: int|
        0 <= i < l.len() ==> t.contains_key(#[trigger] l[i].id@) && summarizes(l[i], l[i].id@, t[l[i].id@])
    &&& forall|i: int, j: int| 0 <= i < j < l.len() ==> #[trigger] l[i].id@ != #[trigger] l[j].id@
    &&& forall|k: Seq<char>| #[trigger] t.contains_key(k) ==> exists|i: int| 0 <= i < l.len() && #[trigger] l[i].id@ == k
}

/// Summarizes the profile stored under `key`.
pub fn summarize(key: &String, p: &Profile) -> (r: ProfileSummary)
    ensures
        summarizes(r, key@, *p),
{
    ProfileSummary {
        id: key.clone(),
        last_seen: p.last_seen,
        tcp: p.syn.is_some() || p.syn_ack.is_some() || p.mtu.is_some() || p.uptime.is_some(),
        http: p.http_request.is_some() || p.http_response.is_some(),
        tls: p.tls_client.is_some(),
    }
}

#[verifier::external_type_specification]
#[verifier::external_body]
#[verifier::reject_recursive_types(K)]
#[verifier::reject_recursive_types(V)]
#[verifier::reject_recursive_types(S)]
pub struct ExDashMap<K, V, S>(DashMap<K, V, S>);

/// The concurrent map that holds the profiles.
pub type ProfileTable = DashMap<String, Profile>;

/// The profiles a map holds, by key.
pub uninterp spec fn table_of(m: ProfileTable) -> Map<Seq<char>, Profile>;

/// Relies on `DashMap::new`: an empty map.
#[verifier::external_body]
fn table_new() -> (r: ProfileTable)
    ensures
        table_of(r).dom() == Set::<Seq<char>>::empty(),
{
    DashMap::new()
}

/// Relies on `DashMap::len`: the number of entries.
#[verifier::external_body]
fn table_len(m: &ProfileTable) -> (r: usize)
    ensures
        r == table_of(*m).dom().len(),
{
    m.len()
}

/// Relies on `DashMap::insert`: the entry for `k` becomes `v`.
#[verifier::external_body]
fn table_insert(m: &mut ProfileTable, k: String, v: Profile)
    ensures
        table_of(*final(m)) == table_of(*old(m)).insert(k@, v),
{
    m.insert(k, v);
}

/// Relies on `DashMap::remove`: the entry for `k` leaves the map and is returned.
#[verifier::external_body]
fn table_remove(m: &mut ProfileTable, k: &str) -> (r: Option<Profile>)
    ensures
        table_of(*final(m)) == table_of(*old(m)).remove(k@),
        r == if table_of(*old(m)).contains_key(k@) {
            Some(table_of(*old(m))[k@])
        } else {
            None
        },
{
    m.remove(k).map(|(_, v)| v)
}

/// Relies on `DashMap::iter`, which visits every entry once.
#[verifier::external_body]
fn table_summaries(m: &ProfileTable) -> (r: Vec<ProfileSummary>)
    ensures
        lists(r@, table_of(*m)),
{
    m.iter().map(|e| summarize(e.key(), e.value())).collect()
}

/// The position of a least recently seen summary.
fn oldest(s: &Vec<ProfileSummary>) -> (r: usize)
    requires
        s@.len() > 0,
    ensures
        r < s@.len(),
        forall|j: int| 0 <= j < s@.len() ==> s@[r as int].last_seen <= #[trigger] s@[j].last_seen,
{
    let mut best: usize = 0;
    let mut i: usize = 1;
    while i < s.len()
        invariant
            1 <= i <= s@.len(),
            best < i,
            forall|j: int| 0 <= j < i ==> s@[best as int].last_seen <= #[trigger] s@[j].last_seen,
        decreases s@.len() - i,
    {
        if s[i].last_seen < s[best].last_seen {
            best = i;
        }
        i = i + 1;
    }
    best
}


/// Relies on `DashMap::get` and `Profile`'s `Clone`: a copy of the entry for `k`, if any.
#[verifier::external_body]
fn table_get(m: &ProfileTable, k: &str) -> (r: Option<Profile>)
    ensures
        r is Some == table_of(*m).contains_key(k@),
{
    m.get(k).map(|e| e.value().clone())
}

/// Relies on `DashMap::iter` and `Profile`'s `Clone`: a copy of every entry.
#[verifier::external_body]
fn table_profiles(m: &ProfileTable) -> (r: Vec<Profile>)
    ensures
        r@.len() == table_of(*m).dom().len(),
{
    m.iter().map(|e| e.value().clone()).collect()
}

/// Relies on `chrono::Utc::now` and `DateTime::timestamp_millis`: the current
/// time in milliseconds since the Unix epoch.
#[verifier::external_body]
fn clock_millis() -> (r: i64) {
    chrono::Utc::now().timestamp_millis()
}

/// The current time in milliseconds since the Unix epoch, or 0 before it.
pub fn now_millis() -> (r: u64) {
    let t = clock_millis();
    if t < 0 {
        0
    } else {
        t as u64
    }
}

/// Which profiles a statistic counts.
pub enum StatKind {
    Tcp,
    Http,
    Tls,
    /// Both HTTP and TLS.
    Complete,
}

pub open spec fn counts_as(s: ProfileSummary, k: StatKind) -> bool {
    match k {
        StatKind::Tcp => s.tcp,
        StatKind::Http => s.http,
        StatKind::Tls => s.tls,
        StatKind::Complete => s.http && s.tls,
    }
}

/// The number of summaries in `l` that statistic `k` counts.
pub open spec fn count_of(l: Seq<ProfileSummary>, k: StatKind) -> nat
    decreases l.len(),
{
    if l.len() == 0 {
        0
    } else {
        count_of(l.drop_last(), k) + if counts_as(l.last(), k) {
            1nat
        } else {
            0nat
        }
    }
}

proof fn lemma_count_bound(l: Seq<ProfileSummary>, k: StatKind)
    ensures
        count_of(l, k) <= l.len(),
    decreases l.len(),
{
    if l.len() > 0 {
        lemma_count_bound(l.drop_last(), k);
    }
}

/// Profile counts by kind of data held.
#[derive(Debug)]
pub struct AppStats {
    pub total_profiles: usize,
    pub tcp_profiles: usize,
    pub http_profiles: usize,
    pub tls_profiles: usize,
    pub complete_profiles: usize,
}

pub open spec fn stats_of(r: AppStats, l: Seq<ProfileSummary>) -> bool {
    &&& r.total_profiles == l.len()
    &&& r.tcp_profiles == count_of(l, StatKind::Tcp)
    &&& r.http_profiles == count_of(l, StatKind::Http)
    &&& r.tls_profiles == count_of(l, StatKind::Tls)
    &&& r.complete_profiles == count_of(l, StatKind::Complete)
}

/// Counts a snapshot of profile summaries.
pub fn stats_from_summaries(l: &Vec<ProfileSummary>) -> (r: AppStats)
    ensures
        stats_of(r, l@),
{
    let mut tcp: usize = 0;
    let mut http: usize = 0;
    let mut tls: usize = 0;
    let mut complete: usize = 0;
    let mut i: usize = 0;
    while i < l.len()
        invariant
            i <= l@.len(),
            tcp == count_of(l@.take(i as int), StatKind::Tcp),
            http == count_of(l@.take(i as int), StatKind::Http),
            tls == count_of(l@.take(i as int), StatKind::Tls),
            complete == count_of(l@.take(i as int), StatKind::Complete),
        decreases l@.len() - i,
    {
        assert(l@.take(i + 1).drop_last() =~= l@.take(i as int));
        proof {
            lemma_count_bound(l@.take(i as int), StatKind::Tcp);
            lemma_count_bound(l@.take(i as int), StatKind::Http);
            lemma_count_bound(l@.take(i as int), StatKind::Tls);
            lemma_count_bound(l@.take(i as int), StatKind::Complete);
        }
        let s = &l[i];
        if s.tcp {
            tcp = tcp + 1;
        }
        if s.http {
            http = http + 1;
        }
        if s.tls {
            tls = tls + 1;
        }
        if s.http && s.tls {
            complete = complete + 1;
        }
        i = i + 1;
    }
    assert(l@.take(i as int) =~= l@);
    AppStats {
        total_profiles: l.len(),
        tcp_profiles: tcp,
        http_profiles: http,
        tls_profiles: tls,
        complete_profiles: complete,
    }
}

/// The IP a query names itself by: the first element of `X-Real-IP` if that
/// header is present, else of `X-Forwarded-For`, without surrounding white space.
pub open spec fn requester_ip_of(real_ip: Option<Seq<char>>, forwarded_for: Option<Seq<char>>) -> Option<
    Seq<char>,
> {
    match real_ip {
        Some(v) => Some(trimmed_of(comma_prefix(v))),
        None => match forwarded_for {
            Some(v) => Some(trimmed_of(comma_prefix(v))),
            None => None,
        },
    }
}

/// Resolves the requester's IP from its forwarding headers; `None` when neither is present.
pub fn requester_ip(real_ip: Option<&str>, forwarded_for: Option<&str>) -> (r: Option<String>)
    ensures
        match r {
            Some(ip) => requester_ip_of(
                match real_ip { Some(v) => Some(v@), None => None },
                match forwarded_for { Some(v) => Some(v@), None => None },
            ) == Some(ip@),
            None => real_ip is None && forwarded_for is None,
        },
{
    let chosen = match real_ip {
        Some(v) => v,
        None => match forwarded_for {
            Some(v) => v,
            None => return None,
        },
    };
    let first = first_comma_field(chosen);
    Some(trim(first.as_str()))
}

/// Every filled slot of `p` was observed (seconds) no later than `p.last_seen` (milliseconds).
pub open spec fn fresh(p: Profile) -> bool {
    &&& (p.syn matches Some(d) ==> d.timestamp * 1000 <= p.last_seen)
    &&& (p.syn_ack matches Some(d) ==> d.timestamp * 1000 <= p.last_seen)
    &&& (p.mtu matches Some(d) ==> d.timestamp * 1000 <= p.last_seen)
    &&& (p.uptime matches Some(d) ==> d.timestamp * 1000 <= p.last_seen)
    &&& (p.http_request matches Some(d) ==> d.timestamp * 1000 <= p.last_seen)
    &&& (p.http_response matches Some(d) ==> d.timestamp * 1000 <= p.last_seen)
    &&& (p.tls_client matches Some(d) ==> d.timestamp * 1000 <= p.last_seen)
}

/// A profile's `last_seen` is never behind the observations it holds, provided
/// each observation reaches the store no earlier than it was made.
pub proof fn lemma_ingest_keeps_profiles_fresh(
    before: Map<Seq<char>, Profile>,
    obs: Observation,
    now: u64,
    after: Map<Seq<char>, Profile>,
)
    requires
        forall|k: Seq<char>| #[trigger] before.contains_key(k) ==> fresh(before[k]),
        obs.observed_at() * 1000 <= now,
        trimmed(upserted(before, obs, now), after),
    ensures
        forall|k: Seq<char>| #[trigger] after.contains_key(k) ==> fresh(after[k]),
{
    let key = obs.client().ip@;
    let p = touched(before, obs.client().ip, now);
    if before.contains_key(key) {
        assert(fresh(before[key]));
    }
    assert(fresh(p));
    assert(fresh(with_observation(p, obs)));
    assert forall|k: Seq<char>| #[trigger] after.contains_key(k) implies fresh(after[k]) by {
        assert(upserted(before, obs, now).contains_key(k));
        if k != key {
            assert(before.contains_key(k));
        }
    }
}

/// SYN-ACKs, uptime readings and HTTP responses update the profile of their
/// destination; SYNs, MTU readings, HTTP requests and TLS hellos that of their
/// source. No other profile changes.
pub proof fn lemma_ingest_keying(t: Map<Seq<char>, Profile>, obs: Observation, now: u64)
    ensures
        ({
            let u = upserted(t, obs, now);
            &&& u.contains_key(obs.client().ip@)
            &&& u[obs.client().ip@].id == obs.client().ip
            &&& forall|k: Seq<char>| k != obs.client().ip@ ==> #[trigger] u.contains_key(k) == t.contains_key(k)
            &&& forall|k: Seq<char>| k != obs.client().ip@ && #[trigger] t.contains_key(k) ==> u[k] == t[k]
            &&& match obs {
                Observation::Syn(d) => obs.client() == d.source && u[d.source.ip@].syn == Some(d),
                Observation::SynAck(d) => obs.client() == d.destination && u[d.destination.ip@].syn_ack
                    == Some(d),
                Observation::Mtu(d) => obs.client() == d.source && u[d.source.ip@].mtu == Some(d),
                Observation::Uptime(d) => obs.client() == d.destination && u[d.destination.ip@].uptime
                    == Some(d),
                Observation::HttpRequest(d) => obs.client() == d.source && u[d.source.ip@].http_request
                    == Some(d),
                Observation::HttpResponse(d) => obs.client() == d.destination
                    && u[d.destination.ip@].http_response == Some(d),
                Observation::Tls(d) => obs.client() == d.source && u[d.source.ip@].tls_client == Some(d),
            }
        }),
{
}

/// The in-memory profile store, keyed by client IP.
pub struct ProfileStore {
    profiles: ProfileTable,
}

impl ProfileStore {
    /// The stored profiles, by client IP.
    pub closed spec fn table(&self) -> Map<Seq<char>, Profile> {
        table_of(self.profiles)
    }

    /// Finitely many profiles, each stored under its own id.
    pub open spec fn keyed(&self) -> bool {
        &&& self.table().dom().finite()
        &&& forall|k: Seq<char>| #[trigger] self.table().contains_key(k) ==> self.table()[k].id@ == k
    }

    pub open spec fn wf(&self) -> bool {
        &&& self.keyed()
        &&& self.table().dom().len() <= MAX_PROFILES
    }

    /// An empty store.
    pub fn new() -> (r: ProfileStore)
        ensures
            r.wf(),
            r.table() == Map::<Seq<char>, Profile>::empty(),
    {
        let r = ProfileStore { profiles: table_new() };
        assert(r.table() =~= Map::<Seq<char>, Profile>::empty());
        r
    }

    /// The number of stored profiles.
    pub fn len(&self) -> (r: usize)
        ensures
            r == self.table().dom().len(),
    {
        table_len(&self.profiles)
    }

    /// Removes least recently seen profiles until at most `MAX_PROFILES` remain.
    pub fn enforce_profile_limit(&mut self)
        requires
            old(self).keyed(),
        ensures
            final(self).wf(),
            trimmed(old(self).table(), final(self).table()),
    {
        let ghost before = self.table();
        let n = table_len(&self.profiles);
        assert(before.dom().finite());
        if n <= MAX_PROFILES {
            return;
        }
        let mut rest = table_summaries(&self.profiles);
        let to_remove = n - MAX_PROFILES;
        let mut removed: usize = 0;
        while removed < to_remove
            invariant
                before.dom().finite(),
                before.dom().len() == n,
                to_remove == n - MAX_PROFILES,
                removed <= to_remove,
                self.table().dom().finite(),
                self.table().dom().len() + removed == n,
                forall|k: Seq<char>| #[trigger] self.table().contains_key(k) ==> before.contains_key(k)
                    && self.table()[k] == before[k],
                forall|k: Seq<char>| #[trigger] before.contains_key(k) ==> before[k].id@ == k,
                lists(rest@, self.table()),
                forall|gone: Seq<char>, kept: Seq<char>|
                    before.contains_key(gone) && !self.table().contains_key(gone)
                        && #[trigger] self.table().contains_key(kept) ==> #[trigger] before[gone].last_seen
                        <= before[kept].last_seen,
            decreases to_remove - removed,
        {
            let ghost t0 = self.table();
            let ghost r0 = rest@;
            let i = oldest(&rest);
            let victim = rest.remove(i);
            let ghost vk = victim.id@;
            assert(t0.contains_key(vk));
            table_remove(&mut self.profiles, victim.id.as_str());
            let ghost t1 = self.table();
            assert(t1 == t0.remove(vk));
            assert forall|k: Seq<char>| #[trigger] t1.contains_key(k) implies exists|j: int|
                0 <= j < rest@.len() && #[trigger] rest@[j].id@ == k by {
                assert(t0.contains_key(k));
                let j = choose|j: int| 0 <= j < r0.len() && #[trigger] r0[j].id@ == k;
                assert(j != i);
                if j < i {
                    assert(rest@[j] == r0[j]);
                } else {
                    assert(rest@[j - 1] == r0[j]);
                }
            }
            assert forall|gone: Seq<char>, kept: Seq<char>|
                before.contains_key(gone) && !t1.contains_key(gone) && #[trigger] t1.contains_key(kept)
                    implies #[trigger] before[gone].last_seen <= before[kept].last_seen by {
                if gone == vk {
                    assert(t0.contains_key(kept));
                    let j = choose|j: int| 0 <= j < r0.len() && #[trigger] r0[j].id@ == kept;
                    assert(r0[j].last_seen == t0[kept].last_seen);
                    assert(r0[i as int].last_seen <= r0[j].last_seen);
                }
            }
            removed = removed + 1;
        }
        assert forall|k: Seq<char>| #[trigger] self.table().contains_key(k) implies self.table()[k].id@ == k by {
            assert(before.contains_key(k));
        }
    }

    /// Merges an observation into the profile of its client, stamped at `now`
    /// (milliseconds since the Unix epoch), then evicts down to the limit.
    /// An observation without a client IP is dropped; the result says whether
    /// it was stored.
    pub fn ingest_at(&mut self, obs: Observation, now: u64) -> (stored: bool)
        requires
            old(self).wf(),
        ensures
            final(self).wf(),
            stored == (obs.client().ip@.len() > 0),
            !stored ==> final(self).table() == old(self).table(),
            stored ==> trimmed(upserted(old(self).table(), obs, now), final(self).table()),
    {
        let ghost t0 = self.table();
        let ghost o = obs;
        let key = obs.profile_key().clone();
        if key.as_str().is_empty() {
            return false;
        }
        let (mut p, fresh) = match table_remove(&mut self.profiles, key.as_str()) {
            Some(p) => (p, false),
            None => (Profile {
                id: key.clone(),
                timestamp: 0,
                syn: None,
                syn_ack: None,
                mtu: None,
                uptime: None,
                http_request: None,
                http_response: None,
                tls_client: None,
                last_seen: 0,
            }, true),
        };
        p.id = key.clone();
        if fresh || p.last_seen < now {
            p.last_seen = now;
        }
        assert(p == touched(t0, o.client().ip, now));
        match obs {
            Observation::Syn(d) => p.syn = Some(d),
            Observation::SynAck(d) => p.syn_ack = Some(d),
            Observation::Mtu(d) => p.mtu = Some(d),
            Observation::Uptime(d) => p.uptime = Some(d),
            Observation::HttpRequest(d) => p.http_request = Some(d),
            Observation::HttpResponse(d) => p.http_response = Some(d),
            Observation::Tls(d) => p.tls_client = Some(d),
        }
        assert(p == with_observation(touched(t0, o.client().ip, now), o));
        table_insert(&mut self.profiles, key, p);
        assert(self.table() =~= upserted(t0, o, now));
        proof {
            assert(self.table().dom() =~= t0.dom().insert(o.client().ip@));
        }
        self.enforce_profile_limit();
        true
    }
    /// Merges an observation into the profile of its client, stamped with the
    /// current time, then evicts down to the limit.
    pub fn ingest(&mut self, obs: Observation) -> (stored: bool)
        requires
            old(self).wf(),
        ensures
            final(self).wf(),
            stored == (obs.client().ip@.len() > 0),
            !stored ==> final(self).table() == old(self).table(),
            stored ==> exists|now: u64| trimmed(upserted(old(self).table(), obs, now), final(self).table()),
    {
        let now = now_millis();
        self.ingest_at(obs, now)
    }

    /// A copy of the profile stored under `id`.
    pub fn get_profile(&self, id: &str) -> (r: Option<Profile>)
        ensures
            r is Some == self.table().contains_key(id@),
    {
        table_get(&self.profiles, id)
    }

    /// A copy of every stored profile.
    pub fn profiles(&self) -> (r: Vec<Profile>)
        ensures
            r@.len() == self.table().dom().len(),
    {
        table_profiles(&self.profiles)
    }

    /// One summary per stored profile.
    pub fn summaries(&self) -> (r: Vec<ProfileSummary>)
        ensures
            lists(r@, self.table()),
    {
        table_summaries(&self.profiles)
    }

    /// Counts the stored profiles by kind of data held.
    pub fn get_stats(&self) -> (r: AppStats)
        ensures
            exists|l: Seq<ProfileSummary>| lists(l, self.table()) && stats_of(r, l),
    {
        let l = self.summaries();
        stats_from_summaries(&l)
    }
}

} // verus!
