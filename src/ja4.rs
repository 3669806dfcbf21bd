//! The JA4 fingerprint database and the JA4 / User-Agent consistency engine.

use vstd::prelude::*;
use crate::assembler::Profile;
use crate::text::{has_substring, lower_of, to_lower, contains};
use crate::json::{
    Record, RecordView, count_member, count_value, flag_member, flag_value, member_value,
    record_view, records_view, text_member, text_value, json_records_of, parse_records,
};

verus! {

/// The application a lower-cased User-Agent names, tested in a fixed priority order.
pub open spec fn application_of(lowered: Seq<char>) -> Option<Seq<char>> {
    if has_substring(lowered, "chrome"@) {
        Some("Chrome"@)
    } else if has_substring(lowered, "firefox"@) {
        Some("Firefox"@)
    } else if has_substring(lowered, "safari"@) && !has_substring(lowered, "chrome"@) {
        Some("Safari"@)
    } else if has_substring(lowered, "edge"@) {
        Some("Edge"@)
    } else if has_substring(lowered, "opera"@) {
        Some("Opera"@)
    } else {
        None
    }
}

pub open spec fn opt_view(o: Option<String>) -> Option<Seq<char>> {
    match o {
        Some(s) => Some(s@),
        None => None,
    }
}

/// One record of the fingerprint corpus. Every text field may be absent.
#[derive(Debug)]
pub struct JA4Entry {
    pub application: Option<String>,
    pub library: Option<String>,
    pub device: Option<String>,
    pub os: Option<String>,
    pub user_agent_string: Option<String>,
    pub certificate_authority: Option<String>,
    pub observation_count: Option<u32>,
    pub verified: bool,
    pub notes: Option<String>,
    pub ja4_fingerprint: Option<String>,
    pub ja4_fingerprint_string: Option<String>,
    pub ja4s_fingerprint: Option<String>,
    pub ja4h_fingerprint: Option<String>,
    pub ja4x_fingerprint: Option<String>,
    pub ja4t_fingerprint: Option<String>,
    pub ja4ts_fingerprint: Option<String>,
    pub ja4tscan_fingerprint: Option<String>,
}

pub struct JA4EntryView {
    pub application: Option<Seq<char>>,
    pub library: Option<Seq<char>>,
    pub device: Option<Seq<char>>,
    pub os: Option<Seq<char>>,
    pub user_agent_string: Option<Seq<char>>,
    pub certificate_authority: Option<Seq<char>>,
    pub observation_count: Option<u32>,
    pub verified: bool,
    pub notes: Option<Seq<char>>,
    pub ja4_fingerprint: Option<Seq<char>>,
    pub ja4_fingerprint_string: Option<Seq<char>>,
    pub ja4s_fingerprint: Option<Seq<char>>,
    pub ja4h_fingerprint: Option<Seq<char>>,
    pub ja4x_fingerprint: Option<Seq<char>>,
    pub ja4t_fingerprint: Option<Seq<char>>,
    pub ja4ts_fingerprint: Option<Seq<char>>,
    pub ja4tscan_fingerprint: Option<Seq<char>>,
}

impl View for JA4Entry {
    type V = JA4EntryView;

    open spec fn view(&self) -> JA4EntryView {
        JA4EntryView {
            application: opt_view(self.application),
            library: opt_view(self.library),
            device: opt_view(self.device),
            os: opt_view(self.os),
            user_agent_string: opt_view(self.user_agent_string),
            certificate_authority: opt_view(self.certificate_authority),
            observation_count: self.observation_count,
            verified: self.verified,
            notes: opt_view(self.notes),
            ja4_fingerprint: opt_view(self.ja4_fingerprint),
            ja4_fingerprint_string: opt_view(self.ja4_fingerprint_string),
            ja4s_fingerprint: opt_view(self.ja4s_fingerprint),
            ja4h_fingerprint: opt_view(self.ja4h_fingerprint),
            ja4x_fingerprint: opt_view(self.ja4x_fingerprint),
            ja4t_fingerprint: opt_view(self.ja4t_fingerprint),
            ja4ts_fingerprint: opt_view(self.ja4ts_fingerprint),
            ja4tscan_fingerprint: opt_view(self.ja4tscan_fingerprint),
        }
    }
}

/// The entry a corpus record decodes to, or `None` when a known member has the
/// wrong kind or `verified` is missing. Unknown members are ignored.
pub open spec fn decode_entry(rec: RecordView) -> Option<JA4EntryView> {
    if text_value(member_value(rec, "application"@)) is Some
        && text_value(member_value(rec, "library"@)) is Some
        && text_value(member_value(rec, "device"@)) is Some
        && text_value(member_value(rec, "os"@)) is Some
        && text_value(member_value(rec, "user_agent_string"@)) is Some
        && text_value(member_value(rec, "certificate_authority"@)) is Some
        && count_value(member_value(rec, "observation_count"@)) is Some
        && flag_value(member_value(rec, "verified"@)) is Some
        && text_value(member_value(rec, "notes"@)) is Some
        && text_value(member_value(rec, "ja4_fingerprint"@)) is Some
        && text_value(member_value(rec, "ja4_fingerprint_string"@)) is Some
        && text_value(member_value(rec, "ja4s_fingerprint"@)) is Some
        && text_value(member_value(rec, "ja4h_fingerprint"@)) is Some
        && text_value(member_value(rec, "ja4x_fingerprint"@)) is Some
        && text_value(member_value(rec, "ja4t_fingerprint"@)) is Some
        && text_value(member_value(rec, "ja4ts_fingerprint"@)) is Some
        && text_value(member_value(rec, "ja4tscan_fingerprint"@)) is Some {
        Some(JA4EntryView {
            application: text_value(member_value(rec, "application"@)).unwrap(),
            library: text_value(member_value(rec, "library"@)).unwrap(),
            device: text_value(member_value(rec, "device"@)).unwrap(),
            os: text_value(member_value(rec, "os"@)).unwrap(),
            user_agent_string: text_value(member_value(rec, "user_agent_string"@)).unwrap(),
            certificate_authority: text_value(member_value(rec, "certificate_authority"@)).unwrap(),
            observation_count: count_value(member_value(rec, "observation_count"@)).unwrap(),
            verified: flag_value(member_value(rec, "verified"@)).unwrap(),
            notes: text_value(member_value(rec, "notes"@)).unwrap(),
            ja4_fingerprint: text_value(member_value(rec, "ja4_fingerprint"@)).unwrap(),
            ja4_fingerprint_string: text_value(member_value(rec, "ja4_fingerprint_string"@)).unwrap(),
            ja4s_fingerprint: text_value(member_value(rec, "ja4s_fingerprint"@)).unwrap(),
            ja4h_fingerprint: text_value(member_value(rec, "ja4h_fingerprint"@)).unwrap(),
            ja4x_fingerprint: text_value(member_value(rec, "ja4x_fingerprint"@)).unwrap(),
            ja4t_fingerprint: text_value(member_value(rec, "ja4t_fingerprint"@)).unwrap(),
            ja4ts_fingerprint: text_value(member_value(rec, "ja4ts_fingerprint"@)).unwrap(),
            ja4tscan_fingerprint: text_value(member_value(rec, "ja4tscan_fingerprint"@)).unwrap(),
        })
    } else {
        None
    }
}

/// Decodes one corpus record.
pub fn entry_from_record(rec: &Record) -> (r: Option<JA4Entry>)
    ensures
        match r {
            Some(e) => decode_entry(record_view(*rec)) == Some(e@),
            None => decode_entry(record_view(*rec)) is None,
        },
{
    let application = match text_member(rec, "application") {
        Some(v) => v,
        None => return None,
    };
    let library = match text_member(rec, "library") {
        Some(v) => v,
        None => return None,
    };
    let device = match text_member(rec, "device") {
        Some(v) => v,
        None => return None,
    };
    let os = match text_member(rec, "os") {
        Some(v) => v,
        None => return None,
    };
    let user_agent_string = match text_member(rec, "user_agent_string") {
        Some(v) => v,
        None => return None,
    };
    let certificate_authority = match text_member(rec, "certificate_authority") {
        Some(v) => v,
        None => return None,
    };
    let observation_count = match count_member(rec, "observation_count") {
        Some(v) => v,
        None => return None,
    };
    let verified = match flag_member(rec, "verified") {
        Some(v) => v,
        None => return None,
    };
    let notes = match text_member(rec, "notes") {
        Some(v) => v,
        None => return None,
    };
    let ja4_fingerprint = match text_member(rec, "ja4_fingerprint") {
        Some(v) => v,
        None => return None,
    };
    let ja4_fingerprint_string = match text_member(rec, "ja4_fingerprint_string") {
        Some(v) => v,
        None => return None,
    };
    let ja4s_fingerprint = match text_member(rec, "ja4s_fingerprint") {
        Some(v) => v,
        None => return None,
    };
    let ja4h_fingerprint = match text_member(rec, "ja4h_fingerprint") {
        Some(v) => v,
        None => return None,
    };
    let ja4x_fingerprint = match text_member(rec, "ja4x_fingerprint") {
        Some(v) => v,
        None => return None,
    };
    let ja4t_fingerprint = match text_member(rec, "ja4t_fingerprint") {
        Some(v) => v,
        None => return None,
    };
    let ja4ts_fingerprint = match text_member(rec, "ja4ts_fingerprint") {
        Some(v) => v,
        None => return None,
    };
    let ja4tscan_fingerprint = match text_member(rec, "ja4tscan_fingerprint") {
        Some(v) => v,
        None => return None,
    };
    Some(JA4Entry {
        application,
        library,
        device,
        os,
        user_agent_string,
        certificate_authority,
        observation_count,
        verified,
        notes,
        ja4_fingerprint,
        ja4_fingerprint_string,
        ja4s_fingerprint,
        ja4h_fingerprint,
        ja4x_fingerprint,
        ja4t_fingerprint,
        ja4ts_fingerprint,
        ja4tscan_fingerprint,
    })
}

fn clone_text(o: &Option<String>) -> (r: Option<String>)
    ensures
        r == *o,
{
    match o {
        Some(s) => Some(s.clone()),
        None => None,
    }
}

impl JA4Entry {
    /// A field-for-field copy.
    pub fn duplicate(&self) -> (r: JA4Entry)
        ensures
            r == *self,
    {
        JA4Entry {
            application: clone_text(&self.application),
            library: clone_text(&self.library),
            device: clone_text(&self.device),
            os: clone_text(&self.os),
            user_agent_string: clone_text(&self.user_agent_string),
            certificate_authority: clone_text(&self.certificate_authority),
            observation_count: self.observation_count,
            verified: self.verified,
            notes: clone_text(&self.notes),
            ja4_fingerprint: clone_text(&self.ja4_fingerprint),
            ja4_fingerprint_string: clone_text(&self.ja4_fingerprint_string),
            ja4s_fingerprint: clone_text(&self.ja4s_fingerprint),
            ja4h_fingerprint: clone_text(&self.ja4h_fingerprint),
            ja4x_fingerprint: clone_text(&self.ja4x_fingerprint),
            ja4t_fingerprint: clone_text(&self.ja4t_fingerprint),
            ja4ts_fingerprint: clone_text(&self.ja4ts_fingerprint),
            ja4tscan_fingerprint: clone_text(&self.ja4tscan_fingerprint),
        }
    }
}


/// Which text field of an entry an index is keyed by.
pub enum IndexField {
    Ja4,
    UserAgent,
    Application,
}

/// The text of one of the indexed fields of an entry.
pub open spec fn field_text(e: JA4EntryView, f: IndexField) -> Option<Seq<char>> {
    match f {
        IndexField::Ja4 => e.ja4_fingerprint,
        IndexField::UserAgent => e.user_agent_string,
        IndexField::Application => e.application,
    }
}

/// The key an entry is indexed under: the field's text when present and non-empty.
pub open spec fn index_key(e: JA4EntryView, f: IndexField) -> Option<Seq<char>> {
    match field_text(e, f) {
        Some(s) => if s.len() > 0 {
            Some(s)
        } else {
            None
        },
        None => None,
    }
}

/// The entries of `es` indexed under `k`, in corpus order.
pub open spec fn matching(es: Seq<JA4EntryView>, f: IndexField, k: Seq<char>) -> Seq<JA4EntryView>
    decreases es.len(),
{
    if es.len() == 0 {
        Seq::empty()
    } else {
        let prev = matching(es.drop_last(), f, k);
        if index_key(es.last(), f) == Some(k) {
            prev.push(es.last())
        } else {
            prev
        }
    }
}

pub open spec fn entries_view(v: Seq<JA4Entry>) -> Seq<JA4EntryView> {
    v.map_values(|e: JA4Entry| e@)
}

/// The entries that share one index key.
#[derive(Debug)]
pub struct IndexBucket {
    pub key: String,
    pub entries: Vec<JA4Entry>,
}

/// An index over `es`: one bucket per distinct key, holding exactly the entries
/// with that key in corpus order.
pub open spec fn index_wf(idx: Seq<IndexBucket>, es: Seq<JA4EntryView>, f: IndexField) -> bool {
    &&& forall|i: int, j: int|
        0 <= i < j < idx.len() ==> #[trigger] idx[i].key@ != #[trigger] idx[j].key@
    &&& forall|i: int|
        0 <= i < idx.len() ==> entries_view(#[trigger] idx[i].entries@) == matching(
            es,
            f,
            idx[i].key@,
        ) && idx[i].entries@.len() > 0
    &&& forall|k: Seq<char>|
        (forall|i: int| 0 <= i < idx.len() ==> #[trigger] idx[i].key@ != k) ==> (#[trigger] matching(
            es,
            f,
            k,
        )).len() == 0
}

impl JA4Entry {
    fn index_field(&self, f: &IndexField) -> (r: &Option<String>)
        ensures
            match f {
                IndexField::Ja4 => *r == self.ja4_fingerprint,
                IndexField::UserAgent => *r == self.user_agent_string,
                IndexField::Application => *r == self.application,
            },
            opt_view(*r) == field_text(self@, *f),
    {
        match f {
            IndexField::Ja4 => &self.ja4_fingerprint,
            IndexField::UserAgent => &self.user_agent_string,
            IndexField::Application => &self.application,
        }
    }
}

proof fn lemma_matching_push(es: Seq<JA4EntryView>, e: JA4EntryView, f: IndexField, k: Seq<char>)
    ensures
        matching(es.push(e), f, k) == if index_key(e, f) == Some(k) {
            matching(es, f, k).push(e)
        } else {
            matching(es, f, k)
        },
{
    assert(es.push(e).drop_last() =~= es);
}

/// Finds the bucket whose key is `key`.
fn find_bucket(idx: &Vec<IndexBucket>, key: &String) -> (r: Option<usize>)
    ensures
        match r {
            Some(b) => b < idx@.len() && idx@[b as int].key@ == key@,
            None => forall|i: int| 0 <= i < idx@.len() ==> #[trigger] idx@[i].key@ != key@,
        },
{
    let mut i: usize = 0;
    while i < idx.len()
        invariant
            i <= idx@.len(),
            forall|j: int| 0 <= j < i ==> #[trigger] idx@[j].key@ != key@,
        decreases idx@.len() - i,
    {
        if idx[i].key == *key {
            return Some(i);
        }
        i = i + 1;
    }
    None
}

/// Adds the next corpus entry `e` to an index over the entries before it.
fn index_add(idx: &mut Vec<IndexBucket>, e: &JA4Entry, f: &IndexField, Ghost(es): Ghost<Seq<JA4EntryView>>)
    requires
        index_wf(old(idx)@, es, *f),
    ensures
        index_wf(final(idx)@, es.push(e@), *f),
{
    let ghost f0 = *f;
    proof {
        assert forall|k: Seq<char>| #[trigger] matching(es.push(e@), f0, k) == if index_key(e@, f0) == Some(k) {
            matching(es, f0, k).push(e@)
        } else {
            matching(es, f0, k)
        } by {
            lemma_matching_push(es, e@, f0, k);
        }
    }
    let field = e.index_field(f);
    match field {
        Some(key) => {
            if key.as_str().is_empty() {
                assert(index_key(e@, f0) is None);
                return;
            }
            assert(index_key(e@, f0) == Some(key@));
            match find_bucket(idx, key) {
                Some(b) => {
                    let ghost old_idx = idx@;
                    let mut bucket = idx.remove(b);
                    let ghost old_entries = bucket.entries@;
                    bucket.entries.push(e.duplicate());
                    assert(entries_view(bucket.entries@) =~= entries_view(old_entries).push(e@));
                    idx.insert(b, bucket);
                    assert(idx@ =~= old_idx.update(b as int, bucket));
                    assert forall|i: int| 0 <= i < idx@.len() implies entries_view(
                        #[trigger] idx@[i].entries@,
                    ) == matching(es.push(e@), f0, idx@[i].key@) && idx@[i].entries@.len() > 0 by {
                        if i != b as int {
                            assert(idx@[i] == old_idx[i]);
                            if i < b as int {
                                assert(old_idx[i].key@ != old_idx[b as int].key@);
                            } else {
                                assert(old_idx[b as int].key@ != old_idx[i].key@);
                            }
                        }
                    }
                    assert forall|k: Seq<char>|
                        (forall|i: int| 0 <= i < idx@.len() ==> #[trigger] idx@[i].key@ != k) implies (
                        #[trigger] matching(es.push(e@), f0, k)).len() == 0 by {
                        assert(idx@[b as int].key@ != k);
                        assert forall|i: int| 0 <= i < old_idx.len() implies #[trigger] old_idx[i].key@ != k by {
                            assert(idx@[i].key@ == old_idx[i].key@);
                        }
                    }
                },
                None => {
                    let ghost old_idx = idx@;
                    let mut v: Vec<JA4Entry> = Vec::new();
                    v.push(e.duplicate());
                    let bucket = IndexBucket { key: key.clone(), entries: v };
                    assert(entries_view(bucket.entries@) =~= seq![e@]);
                    assert(matching(es, f0, key@).len() == 0);
                    assert(matching(es, f0, key@) =~= Seq::<JA4EntryView>::empty());
                    idx.push(bucket);
                    assert(idx@ =~= old_idx.push(bucket));
                    assert forall|i: int| 0 <= i < idx@.len() implies entries_view(
                        #[trigger] idx@[i].entries@,
                    ) == matching(es.push(e@), f0, idx@[i].key@) && idx@[i].entries@.len() > 0 by {
                        if i < old_idx.len() {
                            assert(idx@[i] == old_idx[i]);
                            assert(old_idx[i].key@ != key@);
                        }
                    }
                    assert forall|k: Seq<char>|
                        (forall|i: int| 0 <= i < idx@.len() ==> #[trigger] idx@[i].key@ != k) implies (
                        #[trigger] matching(es.push(e@), f0, k)).len() == 0 by {
                        assert(idx@[old_idx.len() as int].key@ != k);
                        assert forall|i: int| 0 <= i < old_idx.len() implies #[trigger] old_idx[i].key@ != k by {
                            assert(idx@[i] == old_idx[i]);
                        }
                    }
                },
            }
        },
        None => {
            assert(index_key(e@, f0) is None);
        },
    }
}

/// The JA4 fingerprint database: the corpus and three indices over it.
#[derive(Debug)]
pub struct JA4Database {
    /// The corpus, in the order it was loaded.
    pub entries: Vec<JA4Entry>,
    /// Entries by JA4 fingerprint.
    pub ja4_to_entries: Vec<IndexBucket>,
    /// Entries by User-Agent string.
    pub ua_to_entries: Vec<IndexBucket>,
    /// Entries by application name.
    pub app_to_entries: Vec<IndexBucket>,
    /// The number of entries in the corpus.
    pub total_entries: usize,
}

/// Every record decodes to an entry.
pub open spec fn all_decode(rs: Seq<RecordView>) -> bool {
    forall|i: int| 0 <= i < rs.len() ==> (#[trigger] decode_entry(rs[i])) is Some
}

/// The entries that the records decode to.
pub open spec fn decoded(rs: Seq<RecordView>) -> Seq<JA4EntryView> {
    rs.map_values(|r: RecordView| decode_entry(r).unwrap())
}

/// The record at `index` is the first that does not decode.
pub open spec fn first_undecodable(rs: Seq<RecordView>, index: int) -> bool {
    &&& 0 <= index < rs.len()
    &&& decode_entry(rs[index]) is None
    &&& forall|j: int| 0 <= j < index ==> (#[trigger] decode_entry(rs[j])) is Some
}

/// Why a corpus could not be loaded.
#[derive(Debug)]
pub enum JA4LoadError {
    /// The text is not a JSON array of objects.
    InvalidJson,
    /// The entry at `index` has a member of the wrong kind, or no `verified` flag.
    InvalidEntry { index: usize },
}

impl JA4Database {
    /// The corpus as a sequence of entry values.
    pub open spec fn corpus(&self) -> Seq<JA4EntryView> {
        entries_view(self.entries@)
    }

    /// The database's indices agree with its corpus.
    pub open spec fn wf(&self) -> bool {
        &&& self.total_entries == self.entries@.len()
        &&& index_wf(self.ja4_to_entries@, self.corpus(), IndexField::Ja4)
        &&& index_wf(self.ua_to_entries@, self.corpus(), IndexField::UserAgent)
        &&& index_wf(self.app_to_entries@, self.corpus(), IndexField::Application)
    }

    /// Builds the three indices over a corpus.
    pub fn from_entries(entries: Vec<JA4Entry>) -> (r: JA4Database)
        ensures
            r.wf(),
            r.entries@ == entries@,
            r.total_entries == entries@.len(),
    {
        let mut ja4_to_entries: Vec<IndexBucket> = Vec::new();
        let mut ua_to_entries: Vec<IndexBucket> = Vec::new();
        let mut app_to_entries: Vec<IndexBucket> = Vec::new();
        let ghost all = entries_view(entries@);
        assert forall|f: IndexField, k: Seq<char>| (#[trigger] matching(all.take(0), f, k)).len() == 0 by {}
        let mut p: usize = 0;
        while p < entries.len()
            invariant
                p <= entries@.len(),
                all == entries_view(entries@),
                index_wf(ja4_to_entries@, all.take(p as int), IndexField::Ja4),
                index_wf(ua_to_entries@, all.take(p as int), IndexField::UserAgent),
                index_wf(app_to_entries@, all.take(p as int), IndexField::Application),
            decreases entries@.len() - p,
        {
            let e = &entries[p];
            assert(all.take(p as int).push(e@) =~= all.take(p + 1));
            index_add(&mut ja4_to_entries, e, &IndexField::Ja4, Ghost(all.take(p as int)));
            index_add(&mut ua_to_entries, e, &IndexField::UserAgent, Ghost(all.take(p as int)));
            index_add(&mut app_to_entries, e, &IndexField::Application, Ghost(all.take(p as int)));
            p = p + 1;
        }
        assert(all.take(p as int) =~= all);
        let total_entries = entries.len();
        JA4Database { entries, ja4_to_entries, ua_to_entries, app_to_entries, total_entries }
    }

    /// Loads a corpus from JSON text: an array of entry objects.
    pub fn from_json(json_data: &str) -> (r: Result<JA4Database, JA4LoadError>)
        ensures
            match r {
                Ok(db) => {
                    &&& db.wf()
                    &&& json_records_of(json_data@) is Some
                    &&& all_decode(json_records_of(json_data@).unwrap())
                    &&& db.corpus() == decoded(json_records_of(json_data@).unwrap())
                    &&& db.total_entries == json_records_of(json_data@).unwrap().len()
                },
                Err(JA4LoadError::InvalidJson) => json_records_of(json_data@) is None,
                Err(JA4LoadError::InvalidEntry { index }) => {
                    &&& json_records_of(json_data@) is Some
                    &&& first_undecodable(json_records_of(json_data@).unwrap(), index as int)
                },
            },
    {
        let records = match parse_records(json_data) {
            Some(rs) => rs,
            None => return Err(JA4LoadError::InvalidJson),
        };
        let ghost rs = records_view(records@);
        let mut entries: Vec<JA4Entry> = Vec::new();
        let mut i: usize = 0;
        while i < records.len()
            invariant
                i <= records@.len(),
                rs == records_view(records@),
                json_records_of(json_data@) == Some(rs),
                entries@.len() == i,
                forall|j: int| 0 <= j < i ==> decode_entry(#[trigger] rs[j]) == Some(entries@[j]@),
            decreases records@.len() - i,
        {
            assert(rs[i as int] == record_view(records@[i as int]));
            match entry_from_record(&records[i]) {
                Some(e) => entries.push(e),
                None => {
                    assert(first_undecodable(rs, i as int));
                    return Err(JA4LoadError::InvalidEntry { index: i });
                },
            }
            i = i + 1;
        }
        let db = JA4Database::from_entries(entries);
        assert(db.corpus() =~= decoded(rs));
        Ok(db)
    }
}


/// The present values of field `f` over `es`, in order (empty texts included).
pub open spec fn texts(es: Seq<JA4EntryView>, f: IndexField) -> Seq<Seq<char>>
    decreases es.len(),
{
    if es.len() == 0 {
        Seq::empty()
    } else {
        let prev = texts(es.drop_last(), f);
        match field_text(es.last(), f) {
            Some(t) => prev.push(t),
            None => prev,
        }
    }
}

/// The position of the first entry of `es` whose User-Agent is `ua`.
pub open spec fn exact_match(es: Seq<JA4EntryView>, ua: Seq<char>) -> Option<int>
    decreases es.len(),
{
    if es.len() == 0 {
        None
    } else {
        match exact_match(es.drop_last(), ua) {
            Some(i) => Some(i),
            None => if es.last().user_agent_string == Some(ua) {
                Some(es.len() - 1)
            } else {
                None
            },
        }
    }
}

/// Whether two lists of names share one.
pub open spec fn overlaps(a: Seq<Seq<char>>, b: Seq<Seq<char>>) -> bool {
    exists|i: int, j: int| 0 <= i < a.len() && 0 <= j < b.len() && #[trigger] a[i] == #[trigger] b[j]
}

/// The debug rendering of a list of strings: bracketed, quoted, escaped.
pub uninterp spec fn debug_list_of(items: Seq<Seq<char>>) -> Seq<char>;

pub open spec fn strings_view(v: Seq<String>) -> Seq<Seq<char>> {
    v.map_values(|s: String| s@)
}

/// Relies on the `Debug` formatting of `Vec<String>`, a function of the strings alone.
#[verifier::external_body]
fn debug_list(items: &Vec<String>) -> (r: String)
    ensures
        r@ == debug_list_of(strings_view(items@)),
{
    format!("{items:?}")
}

pub open spec fn mismatch_message(a: Seq<Seq<char>>, b: Seq<Seq<char>>) -> Seq<char> {
    "Application mismatch: JA4 suggests "@ + debug_list_of(a) + ", User-Agent suggests "@
        + debug_list_of(b)
}

/// How a JA4 / User-Agent pair relates to the database.
#[derive(Debug)]
pub enum VerificationStatus {
    /// The pair itself is in the database.
    ExactMatch { verified: bool, observation_count: Option<u32> },
    /// The JA4 is known, with other User-Agents.
    JA4Match { expected_ua: Vec<String> },
    /// The User-Agent is known, with other JA4s.
    UserAgentMatch { expected_ja4: Vec<String> },
    /// Neither is known, or both are known but never together.
    NoMatch,
    /// The profile lacks the TLS or the HTTP side.
    InsufficientData,
}

pub enum StatusView {
    ExactMatch { verified: bool, observation_count: Option<u32> },
    JA4Match { expected_ua: Seq<Seq<char>> },
    UserAgentMatch { expected_ja4: Seq<Seq<char>> },
    NoMatch,
    InsufficientData,
}

impl View for VerificationStatus {
    type V = StatusView;

    open spec fn view(&self) -> StatusView {
        match self {
            VerificationStatus::ExactMatch { verified, observation_count } => StatusView::ExactMatch {
                verified: *verified,
                observation_count: *observation_count,
            },
            VerificationStatus::JA4Match { expected_ua } => StatusView::JA4Match {
                expected_ua: strings_view(expected_ua@),
            },
            VerificationStatus::UserAgentMatch { expected_ja4 } => StatusView::UserAgentMatch {
                expected_ja4: strings_view(expected_ja4@),
            },
            VerificationStatus::NoMatch => StatusView::NoMatch,
            VerificationStatus::InsufficientData => StatusView::InsufficientData,
        }
    }
}

/// The verdict on a JA4 / User-Agent pair.
#[derive(Debug)]
pub struct ConsistencyAnalysis {
    pub is_consistent: bool,
    /// Confidence in hundredths: 0 to 100.
    pub confidence_percent: u32,
    /// The applications the database associates with the JA4.
    pub expected_applications: Vec<String>,
    /// The application the User-Agent names.
    pub detected_application: Option<String>,
    pub anomalies: Vec<String>,
    pub verification_status: VerificationStatus,
}

pub struct AnalysisView {
    pub is_consistent: bool,
    pub confidence_percent: u32,
    pub expected_applications: Seq<Seq<char>>,
    pub detected_application: Option<Seq<char>>,
    pub anomalies: Seq<Seq<char>>,
    pub verification_status: StatusView,
}

impl View for ConsistencyAnalysis {
    type V = AnalysisView;

    open spec fn view(&self) -> AnalysisView {
        AnalysisView {
            is_consistent: self.is_consistent,
            confidence_percent: self.confidence_percent,
            expected_applications: strings_view(self.expected_applications@),
            detected_application: opt_view(self.detected_application),
            anomalies: strings_view(self.anomalies@),
            verification_status: self.verification_status@,
        }
    }
}

/// The verdict when no entry holds the exact pair: from the entries known for
/// the JA4 (`js`) and for the User-Agent (`us`).
pub open spec fn partial_spec(js: Seq<JA4EntryView>, us: Seq<JA4EntryView>) -> (
    bool,
    u32,
    Seq<Seq<char>>,
    StatusView,
) {
    if js.len() > 0 && us.len() == 0 {
        (
            false,
            30,
            seq!["JA4 fingerprint known but User-Agent not expected"@],
            StatusView::JA4Match { expected_ua: texts(js, IndexField::UserAgent) },
        )
    } else if js.len() == 0 && us.len() > 0 {
        (
            false,
            30,
            seq!["User-Agent known but JA4 fingerprint not expected"@],
            StatusView::UserAgentMatch { expected_ja4: texts(us, IndexField::Ja4) },
        )
    } else if js.len() > 0 && us.len() > 0 {
        let a = texts(js, IndexField::Application);
        let b = texts(us, IndexField::Application);
        if overlaps(a, b) {
            (true, 70, Seq::empty(), StatusView::NoMatch)
        } else {
            (false, 20, seq![mismatch_message(a, b)], StatusView::NoMatch)
        }
    } else {
        (false, 10, seq!["Unknown JA4 and User-Agent combination"@], StatusView::NoMatch)
    }
}

/// The verdict on User-Agent `ua` given the entries known for its JA4 (`js`) and
/// for itself (`us`), with `detected` the application the User-Agent names.
pub open spec fn analysis_spec(
    js: Seq<JA4EntryView>,
    us: Seq<JA4EntryView>,
    ua: Seq<char>,
    detected: Option<Seq<char>>,
) -> AnalysisView {
    match exact_match(js, ua) {
        Some(i) => AnalysisView {
            is_consistent: true,
            confidence_percent: if js[i].verified {
                95
            } else {
                80
            },
            expected_applications: match js[i].application {
                Some(a) => seq![a],
                None => Seq::empty(),
            },
            detected_application: detected,
            anomalies: Seq::empty(),
            verification_status: StatusView::ExactMatch {
                verified: js[i].verified,
                observation_count: js[i].observation_count,
            },
        },
        None => {
            let p = partial_spec(js, us);
            AnalysisView {
                is_consistent: p.0,
                confidence_percent: p.1,
                expected_applications: texts(js, IndexField::Application),
                detected_application: detected,
                anomalies: p.2,
                verification_status: p.3,
            }
        },
    }
}

/// The values of field `f` present in `es`.
fn collect_texts(es: &Vec<JA4Entry>, f: &IndexField) -> (r: Vec<String>)
    ensures
        strings_view(r@) == texts(entries_view(es@), *f),
{
    let ghost all = entries_view(es@);
    let mut out: Vec<String> = Vec::new();
    let mut i: usize = 0;
    assert(strings_view(out@) =~= texts(all.take(0), *f));
    while i < es.len()
        invariant
            i <= es@.len(),
            all == entries_view(es@),
            strings_view(out@) == texts(all.take(i as int), *f),
        decreases es@.len() - i,
    {
        assert(all.take(i + 1).drop_last() =~= all.take(i as int));
        assert(all.take(i + 1).last() == es@[i as int]@);
        match es[i].index_field(f) {
            Some(t) => {
                out.push(t.clone());
                assert(strings_view(out@) =~= texts(all.take(i + 1), *f));
            },
            None => {},
        }
        i = i + 1;
    }
    assert(all.take(i as int) =~= all);
    out
}

/// Whether the two lists share a name.
fn has_overlap(a: &Vec<String>, b: &Vec<String>) -> (r: bool)
    ensures
        r == overlaps(strings_view(a@), strings_view(b@)),
{
    let ghost av = strings_view(a@);
    let ghost bv = strings_view(b@);
    let mut i: usize = 0;
    while i < a.len()
        invariant
            i <= a@.len(),
            av == strings_view(a@),
            bv == strings_view(b@),
            forall|x: int, y: int| 0 <= x < i && 0 <= y < bv.len() ==> #[trigger] av[x] != #[trigger] bv[y],
        decreases a@.len() - i,
    {
        let mut j: usize = 0;
        while j < b.len()
            invariant
                i < a@.len(),
                j <= b@.len(),
                av == strings_view(a@),
                bv == strings_view(b@),
                forall|x: int, y: int| 0 <= x < i && 0 <= y < bv.len() ==> #[trigger] av[x] != #[trigger] bv[y],
                forall|y: int| 0 <= y < j ==> av[i as int] != #[trigger] bv[y],
            decreases b@.len() - j,
        {
            if a[i] == b[j] {
                assert(av[i as int] == bv[j as int]);
                return true;
            }
            j = j + 1;
        }
        i = i + 1;
    }
    false
}

/// The entries of an index stored under `key`, if any.
fn bucket_entries<'a>(
    idx: &'a Vec<IndexBucket>,
    key: &str,
    Ghost(es): Ghost<Seq<JA4EntryView>>,
    Ghost(f): Ghost<IndexField>,
) -> (r: Option<&'a Vec<JA4Entry>>)
    requires
        index_wf(idx@, es, f),
    ensures
        match r {
            Some(v) => entries_view(v@) == matching(es, f, key@) && v@.len() > 0,
            None => matching(es, f, key@).len() == 0,
        },
{
    let k = String::from_str(key);
    match find_bucket(idx, &k) {
        Some(b) => Some(&idx[b].entries),
        None => None,
    }
}

/// The first entry of `es` whose User-Agent is `ua`.
fn first_with_user_agent<'a>(es: &'a Vec<JA4Entry>, ua: &str) -> (r: Option<&'a JA4Entry>)
    ensures
        match r {
            Some(e) => exact_match(entries_view(es@), ua@) matches Some(i) && 0 <= i
                < es@.len() && *e == es@[i],
            None => exact_match(entries_view(es@), ua@) is None,
        },
{
    let ghost all = entries_view(es@);
    let target = String::from_str(ua);
    let mut found: Option<usize> = None;
    let mut i: usize = 0;
    while i < es.len()
        invariant
            i <= es@.len(),
            all == entries_view(es@),
            target@ == ua@,
            match found {
                Some(p) => exact_match(all.take(i as int), ua@) == Some(p as int) && p < i,
                None => exact_match(all.take(i as int), ua@) is None,
            },
        decreases es@.len() - i,
    {
        assert(all.take(i + 1).drop_last() =~= all.take(i as int));
        if found.is_none() {
            match &es[i].user_agent_string {
                Some(u) => {
                    if *u == target {
                        found = Some(i);
                    }
                },
                None => {},
            }
        }
        i = i + 1;
    }
    assert(all.take(i as int) =~= all);
    match found {
        Some(p) => Some(&es[p]),
        None => None,
    }
}

impl JA4Database {
    /// The entries known for JA4 fingerprint `ja4`.
    pub open spec fn ja4_entries(&self, ja4: Seq<char>) -> Seq<JA4EntryView> {
        matching(self.corpus(), IndexField::Ja4, ja4)
    }

    /// The entries known for User-Agent `ua`.
    pub open spec fn ua_entries(&self, ua: Seq<char>) -> Seq<JA4EntryView> {
        matching(self.corpus(), IndexField::UserAgent, ua)
    }

    /// Finds the first entry for `ja4` whose User-Agent is exactly `user_agent`.
    pub fn find_exact_match(&self, ja4: &str, user_agent: &str) -> (r: Option<&JA4Entry>)
        requires
            self.wf(),
        ensures
            match r {
                Some(e) => exact_match(self.ja4_entries(ja4@), user_agent@) matches Some(i)
                    && e@ == self.ja4_entries(ja4@)[i],
                None => exact_match(self.ja4_entries(ja4@), user_agent@) is None,
            },
    {
        match bucket_entries(&self.ja4_to_entries, ja4, Ghost(self.corpus()), Ghost(IndexField::Ja4)) {
            Some(v) => first_with_user_agent(v, user_agent),
            None => {
                assert(self.ja4_entries(ja4@) =~= Seq::<JA4EntryView>::empty());
                None
            },
        }
    }

    /// The verdict when no entry holds the exact pair.
    pub fn analyze_partial_matches(
        &self,
        ja4_entries: &Vec<JA4Entry>,
        ua_entries: &Vec<JA4Entry>,
        user_agent: &str,
    ) -> (r: (bool, u32, Vec<String>, VerificationStatus))
        ensures
            (r.0, r.1, strings_view(r.2@), r.3@) == partial_spec(
                entries_view(ja4_entries@),
                entries_view(ua_entries@),
            ),
    {
        let mut anomalies: Vec<String> = Vec::new();
        if ja4_entries.len() > 0 && ua_entries.len() == 0 {
            let expected_ua = collect_texts(ja4_entries, &IndexField::UserAgent);
            anomalies.push(String::from_str("JA4 fingerprint known but User-Agent not expected"));
            assert(strings_view(anomalies@) =~= seq!["JA4 fingerprint known but User-Agent not expected"@]);
            return (false, 30, anomalies, VerificationStatus::JA4Match { expected_ua });
        }
        if ja4_entries.len() == 0 && ua_entries.len() > 0 {
            let expected_ja4 = collect_texts(ua_entries, &IndexField::Ja4);
            anomalies.push(String::from_str("User-Agent known but JA4 fingerprint not expected"));
            assert(strings_view(anomalies@) =~= seq!["User-Agent known but JA4 fingerprint not expected"@]);
            return (false, 30, anomalies, VerificationStatus::UserAgentMatch { expected_ja4 });
        }
        if ja4_entries.len() > 0 && ua_entries.len() > 0 {
            let ja4_apps = collect_texts(ja4_entries, &IndexField::Application);
            let ua_apps = collect_texts(ua_entries, &IndexField::Application);
            if has_overlap(&ja4_apps, &ua_apps) {
                assert(strings_view(anomalies@) =~= Seq::<Seq<char>>::empty());
                return (true, 70, anomalies, VerificationStatus::NoMatch);
            }
            let mut message = String::from_str("Application mismatch: JA4 suggests ");
            message.append(debug_list(&ja4_apps).as_str());
            message.append(", User-Agent suggests ");
            message.append(debug_list(&ua_apps).as_str());
            anomalies.push(message);
            assert(strings_view(anomalies@) =~= seq![
                mismatch_message(strings_view(ja4_apps@), strings_view(ua_apps@)),
            ]);
            return (false, 20, anomalies, VerificationStatus::NoMatch);
        }
        anomalies.push(String::from_str("Unknown JA4 and User-Agent combination"));
        assert(strings_view(anomalies@) =~= seq!["Unknown JA4 and User-Agent combination"@]);
        (false, 10, anomalies, VerificationStatus::NoMatch)
    }

    /// Names the application a User-Agent belongs to, ignoring case.
    pub fn extract_application_from_ua(&self, user_agent: &str) -> (r: Option<String>)
        ensures
            opt_view(r) == application_of(lower_of(user_agent@)),
    {
        let lowered = to_lower(user_agent);
        extract_application_from_lowered(lowered.as_str())
    }

    /// Judges whether a JA4 fingerprint and a User-Agent belong together.
    pub fn validate_consistency(&self, ja4: &str, user_agent: &str) -> (r: ConsistencyAnalysis)
        requires
            self.wf(),
        ensures
            r@ == analysis_spec(
                self.ja4_entries(ja4@),
                self.ua_entries(user_agent@),
                user_agent@,
                application_of(lower_of(user_agent@)),
            ),
    {
        let empty: Vec<JA4Entry> = Vec::new();
        let ja4_entries = match bucket_entries(
            &self.ja4_to_entries,
            ja4,
            Ghost(self.corpus()),
            Ghost(IndexField::Ja4),
        ) {
            Some(v) => v,
            None => &empty,
        };
        let ua_entries = match bucket_entries(
            &self.ua_to_entries,
            user_agent,
            Ghost(self.corpus()),
            Ghost(IndexField::UserAgent),
        ) {
            Some(v) => v,
            None => &empty,
        };
        assert(entries_view(ja4_entries@) =~= self.ja4_entries(ja4@));
        assert(entries_view(ua_entries@) =~= self.ua_entries(user_agent@));
        if let Some(exact) = self.find_exact_match(ja4, user_agent) {
            let expected_applications = match &exact.application {
                Some(a) => vec![a.clone()],
                None => Vec::new(),
            };
            let r = ConsistencyAnalysis {
                is_consistent: true,
                confidence_percent: if exact.verified {
                    95
                } else {
                    80
                },
                expected_applications,
                detected_application: self.extract_application_from_ua(user_agent),
                anomalies: Vec::new(),
                verification_status: VerificationStatus::ExactMatch {
                    verified: exact.verified,
                    observation_count: exact.observation_count,
                },
            };
            assert(r.expected_applications@.len() <= 1);
            assert(r@.expected_applications =~= analysis_spec(
                self.ja4_entries(ja4@),
                self.ua_entries(user_agent@),
                user_agent@,
                application_of(lower_of(user_agent@)),
            ).expected_applications);
            assert(r@.anomalies =~= Seq::<Seq<char>>::empty());
            return r;
        }
        let (is_consistent, confidence_percent, anomalies, verification_status) =
            self.analyze_partial_matches(ja4_entries, ua_entries, user_agent);
        let expected_applications = collect_texts(ja4_entries, &IndexField::Application);
        ConsistencyAnalysis {
            is_consistent,
            confidence_percent,
            expected_applications,
            detected_application: self.extract_application_from_ua(user_agent),
            anomalies,
            verification_status,
        }
    }
}



/// The distinct keys under which field `f` indexes `es`.
pub open spec fn index_keys(es: Seq<JA4EntryView>, f: IndexField) -> Set<Seq<char>> {
    Set::new(|k: Seq<char>| matching(es, f, k).len() > 0)
}

proof fn lemma_index_size(idx: Seq<IndexBucket>, es: Seq<JA4EntryView>, f: IndexField)
    requires
        index_wf(idx, es, f),
    ensures
        index_keys(es, f).finite(),
        index_keys(es, f).len() == idx.len(),
{
    let keys = idx.map_values(|b: IndexBucket| b.key@);
    assert forall|i: int, j: int| 0 <= i < keys.len() && 0 <= j < keys.len() && i != j implies keys[i]
        != keys[j] by {
        if i < j {
            assert(idx[i].key@ != idx[j].key@);
        } else {
            assert(idx[j].key@ != idx[i].key@);
        }
    }
    keys.unique_seq_to_set();
    assert forall|k: Seq<char>| #[trigger] keys.to_set().contains(k) == index_keys(es, f).contains(k) by {
        if keys.to_set().contains(k) {
            let i = choose|i: int| 0 <= i < keys.len() && keys[i] == k;
            assert(idx[i].key@ == k);
            assert(entries_view(idx[i].entries@).len() == idx[i].entries@.len());
        }
        if index_keys(es, f).contains(k) {
            if forall|i: int| 0 <= i < idx.len() ==> #[trigger] idx[i].key@ != k {
                assert(matching(es, f, k).len() == 0);
            } else {
                let i = choose|i: int| 0 <= i < idx.len() && #[trigger] idx[i].key@ == k;
                assert(keys[i] == k);
            }
        }
    }
    assert(keys.to_set() =~= index_keys(es, f));
}

/// Statistics about a database.
#[derive(Debug)]
pub struct JA4DatabaseStats {
    pub total_entries: usize,
    pub unique_ja4_fingerprints: usize,
    pub unique_user_agents: usize,
    pub unique_applications: usize,
    pub verified_entries: usize,
}

/// The number of verified entries of `es` that carry a JA4 fingerprint.
pub open spec fn verified_with_ja4(es: Seq<JA4EntryView>) -> nat
    decreases es.len(),
{
    if es.len() == 0 {
        0
    } else {
        verified_with_ja4(es.drop_last()) + if es.last().verified && index_key(
            es.last(),
            IndexField::Ja4,
        ) is Some {
            1nat
        } else {
            0nat
        }
    }
}

proof fn lemma_verified_bound(es: Seq<JA4EntryView>)
    ensures
        verified_with_ja4(es) <= es.len(),
    decreases es.len(),
{
    if es.len() > 0 {
        lemma_verified_bound(es.drop_last());
    }
}

proof fn lemma_exact_match_found(es: Seq<JA4EntryView>, ua: Seq<char>)
    ensures
        exact_match(es, ua) matches Some(i) ==> 0 <= i < es.len() && es[i].user_agent_string
            == Some(ua),
    decreases es.len(),
{
    if es.len() > 0 {
        lemma_exact_match_found(es.drop_last(), ua);
    }
}

proof fn lemma_texts_has(es: Seq<JA4EntryView>, f: IndexField, i: int)
    requires
        0 <= i < es.len(),
        field_text(es[i], f) is Some,
    ensures
        texts(es, f).contains(field_text(es[i], f).unwrap()),
    decreases es.len(),
{
    let t = field_text(es[i], f).unwrap();
    if i == es.len() - 1 {
        assert(texts(es, f).last() == t);
    } else {
        lemma_texts_has(es.drop_last(), f, i);
        let j = choose|j: int| 0 <= j < texts(es.drop_last(), f).len() && texts(es.drop_last(), f)[j] == t;
        assert(texts(es, f)[j] == t);
    }
}

/// An exact-match verdict names only applications that the database records
/// for the JA4 fingerprint.
pub proof fn lemma_exact_match_applications_known(
    db: JA4Database,
    ja4: Seq<char>,
    ua: Seq<char>,
    detected: Option<Seq<char>>,
)
    ensures
        ({
            let v = analysis_spec(db.ja4_entries(ja4), db.ua_entries(ua), ua, detected);
            v.verification_status is ExactMatch ==> forall|a: Seq<char>|
                #[trigger] v.expected_applications.contains(a) ==> texts(
                    db.ja4_entries(ja4),
                    IndexField::Application,
                ).contains(a)
        }),
{
    let js = db.ja4_entries(ja4);
    lemma_exact_match_found(js, ua);
    if let Some(i) = exact_match(js, ua) {
        if let Some(a) = js[i].application {
            lemma_texts_has(js, IndexField::Application, i);
            let v = analysis_spec(js, db.ua_entries(ua), ua, detected);
            assert forall|b: Seq<char>| #[trigger] v.expected_applications.contains(b) implies texts(
                js,
                IndexField::Application,
            ).contains(b) by {
                assert(v.expected_applications =~= seq![a]);
            }
        }
    }
}

/// The verdict is a function of the corpus and the two inputs: two databases
/// loaded from the same corpus, asked the same question, answer alike.
pub proof fn lemma_validation_deterministic(
    db1: JA4Database,
    db2: JA4Database,
    ja4: Seq<char>,
    ua: Seq<char>,
    r1: AnalysisView,
    r2: AnalysisView,
)
    requires
        db1.wf(),
        db2.wf(),
        db1.corpus() == db2.corpus(),
        r1 == analysis_spec(db1.ja4_entries(ja4), db1.ua_entries(ua), ua, application_of(lower_of(ua))),
        r2 == analysis_spec(db2.ja4_entries(ja4), db2.ua_entries(ua), ua, application_of(lower_of(ua))),
    ensures
        r1 == r2,
{
}

impl JA4Database {
    /// Counts entries, distinct index keys and verified entries.
    pub fn get_stats(&self) -> (r: JA4DatabaseStats)
        requires
            self.wf(),
        ensures
            r.total_entries == self.total_entries,
            r.unique_ja4_fingerprints == index_keys(self.corpus(), IndexField::Ja4).len(),
            r.unique_user_agents == index_keys(self.corpus(), IndexField::UserAgent).len(),
            r.unique_applications == index_keys(self.corpus(), IndexField::Application).len(),
            r.verified_entries == verified_with_ja4(self.corpus()),
    {
        let ghost all = self.corpus();
        proof {
            lemma_index_size(self.ja4_to_entries@, all, IndexField::Ja4);
            lemma_index_size(self.ua_to_entries@, all, IndexField::UserAgent);
            lemma_index_size(self.app_to_entries@, all, IndexField::Application);
        }
        let mut verified: usize = 0;
        let mut i: usize = 0;
        while i < self.entries.len()
            invariant
                i <= self.entries@.len(),
                all == entries_view(self.entries@),
                verified == verified_with_ja4(all.take(i as int)),
            decreases self.entries@.len() - i,
        {
            assert(all.take(i + 1).drop_last() =~= all.take(i as int));
            proof {
                lemma_verified_bound(all.take(i as int));
            }
            let e = &self.entries[i];
            let has_ja4 = match &e.ja4_fingerprint {
                Some(t) => !t.as_str().is_empty(),
                None => false,
            };
            if e.verified && has_ja4 {
                verified = verified + 1;
            }
            i = i + 1;
        }
        assert(all.take(i as int) =~= all);
        JA4DatabaseStats {
            total_entries: self.total_entries,
            unique_ja4_fingerprints: self.ja4_to_entries.len(),
            unique_user_agents: self.ua_to_entries.len(),
            unique_applications: self.app_to_entries.len(),
            verified_entries: verified,
        }
    }
}


/// The verdict when a profile lacks the TLS fingerprint or the User-Agent.
pub open spec fn insufficient_spec() -> AnalysisView {
    AnalysisView {
        is_consistent: false,
        confidence_percent: 0,
        expected_applications: Seq::empty(),
        detected_application: None,
        anomalies: Seq::empty(),
        verification_status: StatusView::InsufficientData,
    }
}

impl JA4Database {
    /// Judges a profile's TLS JA4 against its HTTP User-Agent; a profile
    /// without both gets `InsufficientData` and no anomaly.
    pub fn validate_profile(&self, profile: &Profile) -> (r: ConsistencyAnalysis)
        requires
            self.wf(),
        ensures
            match (profile.tls_client, profile.http_request) {
                (Some(t), Some(h)) => match h.observed.user_agent {
                    Some(ua) => r@ == analysis_spec(
                        self.ja4_entries(t.ja4@),
                        self.ua_entries(ua@),
                        ua@,
                        application_of(lower_of(ua@)),
                    ),
                    None => r@ == insufficient_spec(),
                },
                _ => r@ == insufficient_spec(),
            },
    {
        if let (Some(t), Some(h)) = (&profile.tls_client, &profile.http_request) {
            if let Some(ua) = &h.observed.user_agent {
                return self.validate_consistency(t.ja4.as_str(), ua.as_str());
            }
        }
        let r = ConsistencyAnalysis {
            is_consistent: false,
            confidence_percent: 0,
            expected_applications: Vec::new(),
            detected_application: None,
            anomalies: Vec::new(),
            verification_status: VerificationStatus::InsufficientData,
        };
        assert(r@.expected_applications =~= Seq::<Seq<char>>::empty());
        assert(r@.anomalies =~= Seq::<Seq<char>>::empty());
        r
    }
}

/// Names the application in an already lower-cased User-Agent.
pub fn extract_application_from_lowered(lowered: &str) -> (r: Option<String>)
    ensures
        opt_view(r) == application_of(lowered@),
{
    if contains(lowered, "chrome") {
        Some(String::from_str("Chrome"))
    } else if contains(lowered, "firefox") {
        Some(String::from_str("Firefox"))
    } else if contains(lowered, "safari") && !contains(lowered, "chrome") {
        Some(String::from_str("Safari"))
    } else if contains(lowered, "edge") {
        Some(String::from_str("Edge"))
    } else if contains(lowered, "opera") {
        Some(String::from_str("Opera"))
    } else {
        None
    }
}

} // verus!
