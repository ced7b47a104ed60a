//! The line stored for an event: one JSON object with a fixed set of keys in
//! a fixed order, so that the same event always gives the same line.

use crate::catalog::{activity_name, get_activity_name};
use crate::decimal::{decimal_text, push_decimal};
use crate::error::ExportError;
use crate::event::{field_or, text_or, Event, EventView};
use vstd::prelude::*;
use vstd::string::*;

verus! {

/// The error of `serde_json`, carried from the call to where it is mapped.
#[verifier::external_type_specification]
#[verifier::external_body]
pub struct ExJsonError(serde_json::Error);

/// A text as a JSON string, quotes and escapes included, as `serde_json`
/// writes it.
pub uninterp spec fn json_string_text(text: Seq<char>) -> Seq<char>;

/// Calls `serde_json::to_string` on a string slice. Trusted: the call
/// succeeds, and what it returns depends on the text alone. `serde_json`
/// reports an error where a value refuses to be serialized, where a map has a
/// key that is no string, or where its writer fails; a string slice written
/// into memory gives rise to none of these.
#[verifier::external_body]
fn json_string(text: &str) -> (r: Result<String, serde_json::Error>)
    ensures
        r is Ok,
        r matches Ok(quoted) ==> quoted@ == json_string_text(text@),
{
    serde_json::to_string(text)
}

/// Writes `text` as a JSON string. This succeeds on every text; the error of
/// `serde_json`, were there one, would come out as a serialization failure.
pub fn quote(text: &str) -> (r: Result<String, ExportError>)
    ensures
        r is Ok,
        r matches Ok(quoted) ==> quoted@ == json_string_text(text@),
{
    match json_string(text) {
        Ok(quoted) => Ok(quoted),
        Err(_) => Err(ExportError::SerializationFailure),
    }
}

/// The line of an event whose texts are already JSON strings: the keys in
/// alphabetical order, numbers bare, nothing between the tokens.
pub open spec fn framed_line(
    event_id: i64,
    activity_code: i32,
    account_id: Seq<char>,
    activity: Seq<char>,
    initiator_id: Seq<char>,
    meta: Seq<char>,
    target_id: Seq<char>,
    timestamp: Seq<char>,
) -> Seq<char> {
    "{\"account_id\":"@ + account_id + ",\"activity\":"@ + activity + ",\"activity_code\":"@
        + decimal_text(activity_code as int) + ",\"event_id\":"@ + decimal_text(event_id as int)
        + ",\"initiator_id\":"@ + initiator_id + ",\"meta\":"@ + meta + ",\"target_id\":"@
        + target_id + ",\"timestamp\":"@ + timestamp + "}"@
}

/// Puts the line of an event together from its numbers and its texts, the
/// texts already written as JSON strings.
pub fn frame_line(
    event_id: i64,
    activity_code: i32,
    account_id: &str,
    activity: &str,
    initiator_id: &str,
    meta: &str,
    target_id: &str,
    timestamp: &str,
) -> (r: String)
    ensures
        r@ == framed_line(
            event_id,
            activity_code,
            account_id@,
            activity@,
            initiator_id@,
            meta@,
            target_id@,
            timestamp@,
        ),
{
    let mut line = String::from_str("{\"account_id\":");
    line.append(account_id);
    line.append(",\"activity\":");
    line.append(activity);
    line.append(",\"activity_code\":");
    push_decimal(&mut line, activity_code as i64);
    line.append(",\"event_id\":");
    push_decimal(&mut line, event_id);
    line.append(",\"initiator_id\":");
    line.append(initiator_id);
    line.append(",\"meta\":");
    line.append(meta);
    line.append(",\"target_id\":");
    line.append(target_id);
    line.append(",\"timestamp\":");
    line.append(timestamp);
    line.append("}");
    line
}

/// The line stored for an event: its id, its timestamp as read, the name and
/// the code of its activity, the three ids and the meta text, an absent one as
/// the empty string. The meta text is carried as a string, whatever it holds.
pub open spec fn log_line_text(e: EventView) -> Seq<char> {
    framed_line(
        e.id,
        e.activity,
        json_string_text(text_or(e.account_id, ""@)),
        json_string_text(activity_name(e.activity)),
        json_string_text(text_or(e.initiator_id, ""@)),
        json_string_text(text_or(e.meta, ""@)),
        json_string_text(text_or(e.target_id, ""@)),
        json_string_text(e.timestamp),
    )
}

/// Writes the line stored for `event`. This succeeds on every event.
pub fn log_line(event: &Event) -> (r: Result<String, ExportError>)
    ensures
        r is Ok,
        r matches Ok(line) ==> line@ == log_line_text(event@),
{
    let name = get_activity_name(event.activity);
    let account_id = quote(field_or(&event.account_id, ""))?;
    let activity = quote(name.as_str())?;
    let initiator_id = quote(field_or(&event.initiator_id, ""))?;
    let meta = quote(field_or(&event.meta, ""))?;
    let target_id = quote(field_or(&event.target_id, ""))?;
    let timestamp = quote(event.timestamp.as_str())?;
    Ok(
        frame_line(
            event.id,
            event.activity,
            account_id.as_str(),
            activity.as_str(),
            initiator_id.as_str(),
            meta.as_str(),
            target_id.as_str(),
            timestamp.as_str(),
        ),
    )
}

} // verus!
