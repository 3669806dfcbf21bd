//! The JSON text of a fingerprint corpus, read as a list of flat records.
//!
//! Each record is one object of the top-level array, with every member's value
//! reduced to the kind the corpus schema cares about.

use vstd::prelude::*;

verus! {

/// A member value of a corpus record.
pub enum JsonScalar {
    Null,
    Bool(bool),
    /// A number; `None` when it is not a non-negative integer that fits in 64 bits.
    Number(Option<u64>),
    Text(String),
    /// An array or an object.
    Nested,
}

pub enum ScalarView {
    Null,
    Bool(bool),
    Number(Option<u64>),
    Text(Seq<char>),
    Nested,
}

impl View for JsonScalar {
    type V = ScalarView;

    open spec fn view(&self) -> ScalarView {
        match self {
            JsonScalar::Null => ScalarView::Null,
            JsonScalar::Bool(b) => ScalarView::Bool(*b),
            JsonScalar::Number(n) => ScalarView::Number(*n),
            JsonScalar::Text(s) => ScalarView::Text(s@),
            JsonScalar::Nested => ScalarView::Nested,
        }
    }
}

pub type Record = Vec<(String, JsonScalar)>;

pub type RecordView = Seq<(Seq<char>, ScalarView)>;

pub open spec fn record_view(r: Record) -> RecordView {
    r@.map_values(|m: (String, JsonScalar)| (m.0@, m.1@))
}

pub open spec fn records_view(rs: Seq<Record>) -> Seq<RecordView> {
    rs.map_values(|r: Record| record_view(r))
}

/// The records of a JSON text that is an array of objects, in array order, or
/// `None` when the text is not such an array.
pub uninterp spec fn json_records_of(text: Seq<char>) -> Option<Seq<RecordView>>;

/// Relies on `serde_json::from_str`, which reads `text` as an array of JSON
/// objects or fails; each member value is then told apart by its kind.
#[verifier::external_body]
pub(crate) fn parse_records(text: &str) -> (r: Option<Vec<Record>>)
    ensures
        match r {
            Some(rs) => json_records_of(text@) == Some(records_view(rs@)),
            None => json_records_of(text@) is None,
        },
{
    let objects: Vec<serde_json::Map<String, serde_json::Value>> = serde_json::from_str(text).ok()?;
    Some(objects.into_iter().map(|o| o.into_iter().map(|(k, v)| (k, match v {
        serde_json::Value::Null => JsonScalar::Null,
        serde_json::Value::Bool(b) => JsonScalar::Bool(b),
        serde_json::Value::Number(n) => JsonScalar::Number(n.as_u64()),
        serde_json::Value::String(s) => JsonScalar::Text(s),
        _ => JsonScalar::Nested,
    })).collect()).collect())
}

/// The value of the member called `name`; the last one wins when a name repeats.
pub open spec fn member_value(rec: RecordView, name: Seq<char>) -> Option<ScalarView>
    decreases rec.len(),
{
    if rec.len() == 0 {
        None
    } else if rec.last().0 == name {
        Some(rec.last().1)
    } else {
        member_value(rec.drop_last(), name)
    }
}

/// An optional text member: absent or null is `None`; any kind but text is a
/// decoding failure (the outer `None`).
pub open spec fn text_value(v: Option<ScalarView>) -> Option<Option<Seq<char>>> {
    match v {
        None => Some(None),
        Some(ScalarView::Null) => Some(None),
        Some(ScalarView::Text(s)) => Some(Some(s)),
        _ => None,
    }
}

/// An optional 32-bit count member.
pub open spec fn count_value(v: Option<ScalarView>) -> Option<Option<u32>> {
    match v {
        None => Some(None),
        Some(ScalarView::Null) => Some(None),
        Some(ScalarView::Number(Some(n))) => if n <= u32::MAX as u64 {
            Some(Some(n as u32))
        } else {
            None
        },
        _ => None,
    }
}

/// A required boolean member.
pub open spec fn flag_value(v: Option<ScalarView>) -> Option<bool> {
    match v {
        Some(ScalarView::Bool(b)) => Some(b),
        _ => None,
    }
}

/// Finds the member called `name`.
pub fn member<'a>(rec: &'a Record, name: &str) -> (r: Option<&'a JsonScalar>)
    ensures
        match r {
            Some(v) => member_value(record_view(*rec), name@) == Some(v@),
            None => member_value(record_view(*rec), name@) is None,
        },
{
    let key = String::from_str(name);
    let ghost rv = record_view(*rec);
    let mut i: usize = rec.len();
    assert(rv.take(i as int) =~= rv);
    while i > 0
        invariant
            i <= rec@.len(),
            rv == record_view(*rec),
            key@ == name@,
            member_value(rv, name@) == member_value(rv.take(i as int), name@),
        decreases i,
    {
        let ghost pre = rv.take(i as int);
        assert(pre.drop_last() =~= rv.take(i - 1));
        assert(pre.last() == (rec@[i - 1].0@, rec@[i - 1].1@));
        if rec[i - 1].0 == key {
            return Some(&rec[i - 1].1);
        }
        i = i - 1;
    }
    assert(rv.take(0).len() == 0);
    None
}

/// Decodes an optional text member.
pub fn text_member(rec: &Record, name: &str) -> (r: Option<Option<String>>)
    ensures
        match r {
            Some(Some(s)) => text_value(member_value(record_view(*rec), name@)) == Some(
                Some(s@),
            ),
            Some(None) => text_value(member_value(record_view(*rec), name@)) == Some(
                None::<Seq<char>>,
            ),
            None => text_value(member_value(record_view(*rec), name@)) is None,
        },
{
    match member(rec, name) {
        None => Some(None),
        Some(JsonScalar::Null) => Some(None),
        Some(JsonScalar::Text(s)) => Some(Some(s.clone())),
        Some(_) => None,
    }
}

/// Decodes an optional 32-bit count member.
pub fn count_member(rec: &Record, name: &str) -> (r: Option<Option<u32>>)
    ensures
        r == count_value(member_value(record_view(*rec), name@)),
{
    match member(rec, name) {
        None => Some(None),
        Some(JsonScalar::Null) => Some(None),
        Some(JsonScalar::Number(Some(n))) => if *n <= u32::MAX as u64 {
            Some(Some(*n as u32))
        } else {
            None
        },
        Some(_) => None,
    }
}

/// Decodes a required boolean member.
pub fn flag_member(rec: &Record, name: &str) -> (r: Option<bool>)
    ensures
        r == flag_value(member_value(record_view(*rec), name@)),
{
    match member(rec, name) {
        Some(JsonScalar::Bool(b)) => Some(*b),
        _ => None,
    }
}

} // verus!
