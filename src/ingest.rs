//! Decoding of duration reports that arrive over a message channel.

use vstd::prelude::*;

verus! {

/// The string held at member `key` of the JSON object written in `text`, if
/// `text` is a JSON object with such a string member.
pub uninterp spec fn json_str_member(text: Seq<char>, key: Seq<char>) -> Option<Seq<char>>;

/// The integer, in the range of `i64`, held at member `key` of the JSON object
/// written in `text`, if there is one.
pub uninterp spec fn json_int_member(text: Seq<char>, key: Seq<char>) -> Option<i64>;

/// Relies on `serde_json::from_str` into a `serde_json::Value`, then
/// `Value::get` and `Value::as_str`: the string member `key` of the document
/// `text`, which depends on `text` and `key` alone.
#[verifier::external_body]
fn str_member(text: &str, key: &str) -> (r: Option<String>)
    ensures
        match r {
            Some(s) => json_str_member(text@, key@) == Some(s@),
            None => json_str_member(text@, key@) is None,
        },
{
    let doc: serde_json::Value = match serde_json::from_str(text) {
        Ok(v) => v,
        Err(_) => return None,
    };
    match doc.get(key) {
        Some(field) => field.as_str().map(|s| s.to_string()),
        None => None,
    }
}

/// Relies on `serde_json::from_str` into a `serde_json::Value`, then
/// `Value::get` and `Value::as_i64`: the integer member `key` of the document
/// `text`, which depends on `text` and `key` alone.
#[verifier::external_body]
fn int_member(text: &str, key: &str) -> (r: Option<i64>)
    ensures
        r == json_int_member(text@, key@),
{
    let doc: serde_json::Value = match serde_json::from_str(text) {
        Ok(v) => v,
        Err(_) => return None,
    };
    match doc.get(key) {
        Some(field) => field.as_i64(),
        None => None,
    }
}

/// A duration reported for an application.
#[derive(Clone, Debug, PartialEq, Eq)]
pub struct DurationReport {
    pub app_name: String,
    /// Seconds.
    pub duration: i64,
}

impl View for DurationReport {
    type V = (Seq<char>, i64);

    open spec fn view(&self) -> (Seq<char>, i64) {
        (self.app_name@, self.duration)
    }
}

/// The view of an optional report.
pub open spec fn report_view(r: Option<DurationReport>) -> Option<(Seq<char>, i64)> {
    match r {
        Some(rep) => Some(rep@),
        None => None,
    }
}

/// The report made of an application name and a duration read from a message:
/// both must be there.
pub open spec fn report_of(app_name: Option<Seq<char>>, duration: Option<i64>) -> Option<(Seq<char>, i64)> {
    if app_name is Some && duration is Some {
        Some((app_name->0, duration->0))
    } else {
        None
    }
}

/// The report that the message `text` holds.
pub open spec fn message_report(text: Seq<char>) -> Option<(Seq<char>, i64)> {
    report_of(json_str_member(text, "app_name"@), json_int_member(text, "duration"@))
}

/// Builds a report from the members read from a message.
pub fn report_from_members(app_name: Option<String>, duration: Option<i64>) -> (r: Option<DurationReport>)
    ensures
        report_view(r) == report_of(
            match app_name {
                Some(a) => Some(a@),
                None => None,
            },
            duration,
        ),
{
    match (app_name, duration) {
        (Some(a), Some(d)) => Some(DurationReport { app_name: a, duration: d }),
        _ => None,
    }
}

/// Decodes a message `{"app_name": <string>, "duration": <integer>}`; other
/// members are ignored. `None` for a malformed message.
pub fn parse_report(text: &str) -> (r: Option<DurationReport>)
    ensures
        report_view(r) == message_report(text@),
{
    let app_name = str_member(text, "app_name");
    let duration = int_member(text, "duration");
    report_from_members(app_name, duration)
}

/// One frame read from a connection.
#[derive(Clone, Debug, PartialEq, Eq)]
pub enum Frame {
    Text(String),
    Close,
    /// A frame of another kind (binary, ping, pong).
    Other,
    /// The transport reported an error.
    Failed,
}

/// What to do with a frame.
#[derive(Clone, Debug, PartialEq, Eq)]
pub enum FrameAction {
    /// Stop reading from the connection.
    Stop,
    /// Nothing to do.
    Ignore,
    /// A text frame that holds no report: log it and go on.
    Malformed,
    /// Append the report to the segment log.
    Record(DurationReport),
}

/// Decides what a frame of a connection leads to: a text frame is decoded, a
/// close frame or a transport error ends the connection, any other frame is
/// ignored.
pub fn handle_frame(frame: &Frame) -> (r: FrameAction)
    ensures
        match frame {
            Frame::Text(t) => match message_report(t@) {
                Some(rep) => r matches FrameAction::Record(x) && x@ == rep,
                None => r == FrameAction::Malformed,
            },
            Frame::Close | Frame::Failed => r == FrameAction::Stop,
            Frame::Other => r == FrameAction::Ignore,
        },
{
    match frame {
        Frame::Text(t) => match parse_report(t.as_str()) {
            Some(rep) => FrameAction::Record(rep),
            None => FrameAction::Malformed,
        },
        Frame::Close | Frame::Failed => FrameAction::Stop,
        Frame::Other => FrameAction::Ignore,
    }
}

} // verus!
