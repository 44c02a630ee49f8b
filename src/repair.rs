//! Reading a model reply as JSON and filling in the time fields that the
//! model cannot know.

use vstd::prelude::*;
use crate::error::AnalysisError;
use crate::reply_text::{extract_json_text, extracted};
use crate::summary::{utc_now, Timestamp};

verus! {

#[verifier::external_type_specification]
#[verifier::external_body]
pub struct ExJsonValue(serde_json::Value);

#[verifier::external_type_specification]
#[verifier::external_body]
pub struct ExJsonError(serde_json::Error);

/// Whether `serde_json::from_str` reads `text` as a JSON document.
pub uninterp spec fn json_accepts(text: Seq<char>) -> bool;

/// Whether a JSON value is an object.
pub uninterp spec fn json_is_object(v: serde_json::Value) -> bool;

/// The keys of a JSON object.
pub uninterp spec fn json_keys(v: serde_json::Value) -> Set<Seq<char>>;

/// The string under `key` of a JSON object; nothing where the value is no
/// object, lacks the key or holds no string there.
pub uninterp spec fn json_str_at(v: serde_json::Value, key: Seq<char>) -> Option<Seq<char>>;

/// The RFC 3339 text (UTC, with a `Z`, fractional digits as needed) that
/// chrono writes for the time `secs` seconds and `nanos` nanoseconds past the
/// epoch; nothing where chrono cannot represent that time.
pub uninterp spec fn rfc3339_text(secs: int, nanos: int) -> Option<Seq<char>>;

/// The key of the session's start.
pub open spec fn start_key() -> Seq<char> {
    seq!['s', 't', 'a', 'r', 't', '_', 't', 'i', 'm', 'e']
}

/// The key of the session's end.
pub open spec fn end_key() -> Seq<char> {
    seq!['e', 'n', 'd', '_', 't', 'i', 'm', 'e']
}

pub assume_specification[ serde_json::Value::is_object ](v: &serde_json::Value) -> (r: bool)
    ensures
        r == json_is_object(*v),
;

/// Relies on `serde_json::from_str`: it succeeds exactly on JSON text.
#[verifier::external_body]
fn parse_json(text: &str) -> (r: Result<serde_json::Value, serde_json::Error>)
    ensures
        r is Ok <==> json_accepts(text@),
{
    serde_json::from_str(text)
}

/// Relies on `serde_json::Value::get`: on an object, a key looks up its entry.
#[verifier::external_body]
fn json_has_key(v: &serde_json::Value, key: &str) -> (r: bool)
    ensures
        json_is_object(*v) ==> r == json_keys(*v).contains(key@),
{
    v.get(key).is_some()
}

/// Relies on `IndexMut<&str> for serde_json::Value` and `Value::String`: on
/// an object, `key` gets the string `text`, added if absent; no other entry
/// changes.
#[verifier::external_body]
fn json_set_str(v: &mut serde_json::Value, key: &str, text: String)
    requires
        json_is_object(*old(v)),
    ensures
        json_is_object(*final(v)),
        json_keys(*final(v)) == json_keys(*old(v)).insert(key@),
        json_str_at(*final(v), key@) == Some(text@),
        forall|k: Seq<char>|
            k != key@ ==> #[trigger] json_str_at(*final(v), k) == json_str_at(*old(v), k),
{
    v[key] = serde_json::Value::String(text);
}

/// Relies on `Display for serde_json::Error`: its description.
#[verifier::external_body]
fn json_error_text(e: &serde_json::Error) -> (r: String) {
    e.to_string()
}

/// Relies on `chrono::DateTime::from_timestamp` and `to_rfc3339_opts`: the
/// time as chrono's serde form writes it; nothing where chrono cannot
/// represent it.
#[verifier::external_body]
fn timestamp_text(t: &Timestamp) -> (r: Option<String>)
    ensures
        rfc3339_text(t.secs as int, t.nanos as int) == match r {
            Some(x) => Some(x@),
            None => None,
        },
{
    match chrono::DateTime::<chrono::Utc>::from_timestamp(t.secs, t.nanos) {
        Some(d) => Some(d.to_rfc3339_opts(chrono::SecondsFormat::AutoSi, true)),
        None => None,
    }
}

/// Gives a JSON object the start and end time fields it lacks, both set to
/// the text of `now`; fields already there, and all other fields, keep their
/// values. A value that is no object, or a `now` that has no text, leaves the
/// value alone.
pub fn fill_time_fields(v: &mut serde_json::Value, now: &Timestamp)
    ensures
        !json_is_object(*old(v)) ==> *final(v) == *old(v),
        json_is_object(*old(v)) && json_keys(*old(v)).contains(start_key()) && json_keys(
            *old(v),
        ).contains(end_key()) ==> *final(v) == *old(v),
        rfc3339_text(now.secs as int, now.nanos as int) is None ==> *final(v) == *old(v),
        forall|k: Seq<char>|
            k != start_key() && k != end_key() ==> #[trigger] json_str_at(*final(v), k)
                == json_str_at(*old(v), k),
        json_keys(*old(v)).contains(start_key()) ==> json_str_at(*final(v), start_key())
            == json_str_at(*old(v), start_key()),
        json_keys(*old(v)).contains(end_key()) ==> json_str_at(*final(v), end_key())
            == json_str_at(*old(v), end_key()),
        json_is_object(*old(v)) ==> json_is_object(*final(v)),
        json_is_object(*old(v)) && rfc3339_text(now.secs as int, now.nanos as int) is Some ==> {
            &&& json_keys(*final(v)) == json_keys(*old(v)).insert(start_key()).insert(end_key())
            &&& !json_keys(*old(v)).contains(start_key()) ==> json_str_at(*final(v), start_key())
                == rfc3339_text(now.secs as int, now.nanos as int)
            &&& !json_keys(*old(v)).contains(end_key()) ==> json_str_at(*final(v), end_key())
                == rfc3339_text(now.secs as int, now.nanos as int)
        },
{
    if !v.is_object() {
        return ;
    }
    let ghost keys = json_keys(*v);
    proof {
        reveal_strlit("start_time");
        reveal_strlit("end_time");
        assert("start_time"@ =~= start_key());
        assert("end_time"@ =~= end_key());
        assert(start_key() != end_key()) by {
            assert(start_key()[0] != end_key()[0]);
        }
    }
    let text = match timestamp_text(now) {
        Some(x) => x,
        None => {
            return ;
        },
    };
    if !json_has_key(v, "start_time") {
        json_set_str(v, "start_time", text.clone());
    }
    assert(json_keys(*v) == keys.insert(start_key()));
    if !json_has_key(v, "end_time") {
        json_set_str(v, "end_time", text);
    }
    assert(json_keys(*v) == keys.insert(start_key()).insert(end_key()));
}

/// Reads a model reply as JSON, once whitespace and any code fence are taken
/// off, and fills in the missing time fields with `now`. A reply that is no
/// JSON fails with the whole reply kept in the error.
pub fn prepare_reply(raw: &str, now: &Timestamp) -> (r: Result<serde_json::Value, AnalysisError>)
    ensures
        r is Ok <==> json_accepts(extracted(raw@)),
        r matches Err(e) ==> (e matches AnalysisError::MalformedResponse { raw: kept, .. }
            && kept@ == raw@),
        r matches Ok(v) ==> (json_is_object(v) && rfc3339_text(now.secs as int, now.nanos as int)
            is Some ==> json_keys(v).contains(start_key()) && json_keys(v).contains(end_key())),
{
    let text = extract_json_text(raw);
    match parse_json(text.as_str()) {
        Ok(v) => {
            let mut v = v;
            fill_time_fields(&mut v, now);
            Ok(v)
        },
        Err(e) => Err(
            AnalysisError::MalformedResponse { detail: json_error_text(&e), raw: raw.to_string() },
        ),
    }
}

/// Reads a model reply as JSON and fills in the missing time fields with the
/// current time; a reply that is no JSON fails with the whole reply kept.
pub fn repair_reply(raw: &str) -> (r: Result<serde_json::Value, AnalysisError>)
    ensures
        r is Ok <==> json_accepts(extracted(raw@)),
        r matches Err(e) ==> (e matches AnalysisError::MalformedResponse { raw: kept, .. }
            && kept@ == raw@),
        r matches Ok(v) ==> (json_is_object(v) ==> json_keys(v).contains(start_key())
            && json_keys(v).contains(end_key())),
{
    let now = utc_now();
    prepare_reply(raw, &now)
}

} // verus!
