//! Delivery: the body of a push request, and what an answer to it means.

use crate::decimal::{decimal_string, decimal_text};
use crate::error::ExportError;
use crate::event::{
    entries_view, streams_view, LabelSet, LabelSetView, Stream, StreamView, JOB,
};
use crate::line::{json_string_text, quote};
use vstd::prelude::*;
use vstd::string::*;

verus! {

/// The path of the backend's push endpoint, below its base URL.
pub const PUSH_PATH: &'static str = "/loki/api/v1/push";

/// The path of the backend's readiness endpoint, below its base URL.
pub const READY_PATH: &'static str = "/ready";

/// The most seconds a push request is given before it is given up.
pub const PUSH_TIMEOUT_SECS: u64 = 10;

/// The seconds a push request is given under a poll interval: the most it may
/// be given, or one second less than the interval where that is less. An
/// interval of a second or none leaves the request one second.
pub open spec fn push_timeout_of(check_interval_secs: u64) -> u64 {
    if check_interval_secs > PUSH_TIMEOUT_SECS {
        PUSH_TIMEOUT_SECS
    } else if check_interval_secs > 1 {
        (check_interval_secs - 1) as u64
    } else {
        1
    }
}

/// The seconds after which a push request is given up. The request never
/// gets more than [`PUSH_TIMEOUT_SECS`], and under every poll interval of more
/// than a second it gets less than the interval, so that a push has ended
/// before the next poll is due.
pub fn push_timeout_secs(check_interval_secs: u64) -> (t: u64)
    ensures
        t == push_timeout_of(check_interval_secs),
        1 <= t <= PUSH_TIMEOUT_SECS,
        check_interval_secs > 1 ==> t < check_interval_secs,
{
    if check_interval_secs > PUSH_TIMEOUT_SECS {
        PUSH_TIMEOUT_SECS
    } else if check_interval_secs > 1 {
        check_interval_secs - 1
    } else {
        1
    }
}

/// `parts` with a comma between each two.
pub open spec fn join_comma(parts: Seq<Seq<char>>) -> Seq<char>
    decreases parts.len(),
{
    if parts.len() == 0 {
        Seq::empty()
    } else if parts.len() == 1 {
        parts[0]
    } else {
        join_comma(parts.drop_last()) + ","@ + parts.last()
    }
}

/// An entry whose two texts are already JSON strings: the pair of them.
pub open spec fn framed_entry(stamp: Seq<char>, line: Seq<char>) -> Seq<char> {
    "["@ + stamp + ","@ + line + "]"@
}

/// An entry in a push body: the pair of its timestamp and its line.
pub open spec fn entry_text(entry: (Seq<char>, Seq<char>)) -> Seq<char> {
    framed_entry(json_string_text(entry.0), json_string_text(entry.1))
}

/// A label set whose four values are already JSON strings: an object with
/// the labels in alphabetical order.
pub open spec fn framed_labels(
    account_id: Seq<char>,
    activity: Seq<char>,
    activity_code: Seq<char>,
    job: Seq<char>,
) -> Seq<char> {
    "{\"account_id\":"@ + account_id + ",\"activity\":"@ + activity + ",\"activity_code\":"@
        + activity_code + ",\"job\":"@ + job + "}"@
}

/// A label set in a push body: an object of four string-valued labels, the
/// activity code among them written in decimal.
pub open spec fn labels_text(labels: LabelSetView) -> Seq<char> {
    framed_labels(
        json_string_text(labels.account_id),
        json_string_text(labels.activity),
        json_string_text(decimal_text(labels.activity_code as int)),
        json_string_text(JOB@),
    )
}

/// The entries of a stream as they stand in a push body.
pub open spec fn entry_texts(values: Seq<(Seq<char>, Seq<char>)>) -> Seq<Seq<char>> {
    Seq::new(values.len(), |i: int| entry_text(values[i]))
}

/// A stream in a push body: its labels, then its entries in order.
pub open spec fn stream_text(stream: StreamView) -> Seq<char> {
    "{\"stream\":"@ + labels_text(stream.labels) + ",\"values\":["@ + join_comma(
        entry_texts(stream.values),
    ) + "]}"@
}

/// The streams of a push as they stand in its body.
pub open spec fn stream_texts(streams: Seq<StreamView>) -> Seq<Seq<char>> {
    Seq::new(streams.len(), |i: int| stream_text(streams[i]))
}

/// The body of a push request for `streams`: one object that holds the
/// streams in order.
pub open spec fn push_body_text(streams: Seq<StreamView>) -> Seq<char> {
    "{\"streams\":["@ + join_comma(stream_texts(streams)) + "]}"@
}

/// One part more joins on with a comma, unless it is the first.
pub proof fn lemma_join_comma_push(parts: Seq<Seq<char>>, part: Seq<char>)
    ensures
        join_comma(parts.push(part)) == if parts.len() == 0 {
            part
        } else {
            join_comma(parts) + ","@ + part
        },
{
    assert(parts.push(part).drop_last() =~= parts);
}

/// Appends an entry to `out`, its timestamp and its line already written as
/// JSON strings.
pub fn frame_entry(out: &mut String, stamp: &str, line: &str)
    ensures
        final(out)@ == old(out)@ + framed_entry(stamp@, line@),
{
    out.append("[");
    out.append(stamp);
    out.append(",");
    out.append(line);
    out.append("]");
    assert(out@ =~= old(out)@ + framed_entry(stamp@, line@));
}

/// Appends a label set to `out`, its four values already written as JSON
/// strings.
pub fn frame_labels(
    out: &mut String,
    account_id: &str,
    activity: &str,
    activity_code: &str,
    job: &str,
)
    ensures
        final(out)@ == old(out)@ + framed_labels(account_id@, activity@, activity_code@, job@),
{
    out.append("{\"account_id\":");
    out.append(account_id);
    out.append(",\"activity\":");
    out.append(activity);
    out.append(",\"activity_code\":");
    out.append(activity_code);
    out.append(",\"job\":");
    out.append(job);
    out.append("}");
    assert(out@ =~= old(out)@ + framed_labels(account_id@, activity@, activity_code@, job@));
}

/// Appends a label set in its push-body form to `out`.
fn push_labels(out: &mut String, labels: &LabelSet) -> (r: Result<(), ExportError>)
    ensures
        r is Ok,
        final(out)@ == old(out)@ + labels_text(labels@),
{
    let account_id = quote(labels.account_id.as_str())?;
    let activity = quote(labels.activity.as_str())?;
    let code = decimal_string(labels.activity_code as i64);
    let activity_code = quote(code.as_str())?;
    let job = quote(JOB)?;
    frame_labels(out, account_id.as_str(), activity.as_str(), activity_code.as_str(), job.as_str());
    Ok(())
}

/// Appends the entries of a stream in their push-body form to `out`, with
/// commas between them.
fn push_entries(out: &mut String, values: &Vec<(String, String)>) -> (r: Result<(), ExportError>)
    ensures
        r is Ok,
        final(out)@ == old(out)@ + join_comma(entry_texts(entries_view(values@))),
{
    let ghost texts = entry_texts(entries_view(values@));
    let mut i: usize = 0;
    assert(out@ =~= old(out)@ + join_comma(texts.take(0)));
    while i < values.len()
        invariant
            i <= values.len(),
            texts == entry_texts(entries_view(values@)),
            out@ == old(out)@ + join_comma(texts.take(i as int)),
        decreases values.len() - i,
    {
        let stamp = quote(values[i].0.as_str())?;
        let line = quote(values[i].1.as_str())?;
        if i > 0 {
            out.append(",");
        }
        frame_entry(out, stamp.as_str(), line.as_str());
        proof {
            lemma_join_comma_push(texts.take(i as int), texts[i as int]);
            assert(texts.take(i as int).push(texts[i as int]) =~= texts.take(i + 1));
            assert(out@ =~= old(out)@ + join_comma(texts.take(i + 1)));
        }
        i += 1;
    }
    assert(texts.take(i as int) =~= texts);
    Ok(())
}

/// Appends a stream in its push-body form to `out`.
fn push_stream(out: &mut String, stream: &Stream) -> (r: Result<(), ExportError>)
    ensures
        r is Ok,
        final(out)@ == old(out)@ + stream_text(stream@),
{
    out.append("{\"stream\":");
    push_labels(out, &stream.labels)?;
    out.append(",\"values\":[");
    push_entries(out, &stream.values)?;
    out.append("]}");
    assert(out@ =~= old(out)@ + stream_text(stream@));
    Ok(())
}

/// Writes the body of a push request for `streams`. This succeeds on every
/// set of streams.
pub fn push_body(streams: &Vec<Stream>) -> (r: Result<String, ExportError>)
    ensures
        r is Ok,
        r matches Ok(body) ==> body@ == push_body_text(streams_view(streams@)),
{
    let ghost texts = stream_texts(streams_view(streams@));
    let mut out = String::from_str("{\"streams\":[");
    let ghost opening = out@;
    let mut i: usize = 0;
    assert(out@ =~= opening + join_comma(texts.take(0)));
    while i < streams.len()
        invariant
            i <= streams.len(),
            texts == stream_texts(streams_view(streams@)),
            opening == "{\"streams\":["@,
            out@ == opening + join_comma(texts.take(i as int)),
        decreases streams.len() - i,
    {
        if i > 0 {
            out.append(",");
        }
        push_stream(&mut out, &streams[i])?;
        proof {
            lemma_join_comma_push(texts.take(i as int), texts[i as int]);
            assert(texts.take(i as int).push(texts[i as int]) =~= texts.take(i + 1));
            assert(out@ =~= opening + join_comma(texts.take(i + 1)));
        }
        i += 1;
    }
    assert(texts.take(i as int) =~= texts);
    out.append("]}");
    Ok(out)
}

/// What is to be done to deliver a set of streams.
#[derive(Clone, Debug, PartialEq, Eq)]
pub enum PushStep {
    /// There is nothing to deliver: no request is made, and the delivery
    /// counts as done.
    Skip,
    /// One request with this body is to be sent.
    Send { body: String },
}

/// Decides how a set of streams is delivered: no request at all for an empty
/// set, one request with the body of the set otherwise. This succeeds on
/// every set of streams.
pub fn plan_push(streams: &Vec<Stream>) -> (r: Result<PushStep, ExportError>)
    ensures
        streams.len() == 0 ==> r matches Ok(PushStep::Skip),
        streams.len() > 0 ==> (r matches Ok(PushStep::Send { body }) && body@ == push_body_text(
            streams_view(streams@),
        )),
{
    if streams.len() == 0 {
        return Ok(PushStep::Skip);
    }
    match push_body(streams) {
        Ok(body) => Ok(PushStep::Send { body: body }),
        Err(e) => Err(e),
    }
}

/// What came of one request, as the transport reports it.
#[derive(Clone, Debug, PartialEq, Eq)]
pub enum Transport {
    /// The backend answered.
    Answered { status: u16, body: String },
    /// No answer was obtained: the connection failed or the time ran out.
    Failed { detail: String },
}

/// What came of a delivery.
#[derive(Clone, Debug, PartialEq, Eq)]
pub enum Delivery {
    /// The backend accepted the push.
    Delivered,
    /// The backend was reached and answered with a status other than success.
    Rejected { status: u16, body: String },
    /// No answer was obtained from the backend.
    Unreachable { detail: String },
}

/// Whether a status is of the success class, 200 to 299.
pub open spec fn is_success_status(status: u16) -> bool {
    200 <= status < 300
}

/// What an outcome of the transport means for the delivery.
pub open spec fn classified(outcome: Transport) -> Delivery {
    match outcome {
        Transport::Answered { status, body } => if is_success_status(status) {
            Delivery::Delivered
        } else {
            Delivery::Rejected { status: status, body: body }
        },
        Transport::Failed { detail } => Delivery::Unreachable { detail: detail },
    }
}

/// Classifies what came of a request: delivered on a status of the success
/// class, rejected with status and body on any other, unreachable where no
/// answer was obtained.
pub fn classify(outcome: Transport) -> (r: Delivery)
    ensures
        r == classified(outcome),
{
    match outcome {
        Transport::Answered { status, body } => {
            if 200 <= status && status < 300 {
                Delivery::Delivered
            } else {
                Delivery::Rejected { status: status, body: body }
            }
        },
        Transport::Failed { detail } => Delivery::Unreachable { detail: detail },
    }
}

impl Delivery {
    /// Whether the delivery failed. A rejected and an unreachable delivery
    /// count alike.
    pub open spec fn failed(&self) -> bool {
        !(self is Delivered)
    }

    /// Whether the delivery failed.
    pub fn is_failure(&self) -> (r: bool)
        ensures
            r == self.failed(),
    {
        match self {
            Delivery::Delivered => false,
            _ => true,
        }
    }

    /// The delivery as a result: the failure with its detail, the status and
    /// the body of a rejection, or what the transport said of its failure.
    pub fn into_result(self) -> (r: Result<(), ExportError>)
        ensures
            match self {
                Delivery::Delivered => r is Ok,
                Delivery::Rejected { status, body } => r == Err::<(), ExportError>(
                    ExportError::DeliveryRejected { status: status, body: body },
                ),
                Delivery::Unreachable { detail } => r == Err::<(), ExportError>(
                    ExportError::DeliveryUnreachable { detail: detail },
                ),
            },
    {
        match self {
            Delivery::Delivered => Ok(()),
            Delivery::Rejected { status, body } => Err(
                ExportError::DeliveryRejected { status: status, body: body },
            ),
            Delivery::Unreachable { detail } => Err(
                ExportError::DeliveryUnreachable { detail: detail },
            ),
        }
    }
}

/// The URL of an endpoint: its path below the base URL.
pub fn endpoint_url(base: &str, path: &str) -> (r: String)
    ensures
        r@ == base@ + path@,
{
    let mut url = String::from_str(base);
    url.append(path);
    url
}

} // verus!
