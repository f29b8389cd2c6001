use vstd::prelude::*;
use vstd::string::*;
use crate::text::str_eq;

verus! {

/// The sample rate, in Hz, that every decoder is fed.
pub const INPUT_SAMPLE_RATE: u32 = 16000;

/// A decoded request; every field may be absent.
pub struct Request {
    pub id: Option<String>,
    pub action: Option<String>,
    pub audio: Option<String>,
    pub audio_base64: Option<String>,
    pub sample_rate: Option<u32>,
}

/// What a request frame asks the worker to do.
pub enum Action {
    Warmup,
    Transcribe,
    StreamReset,
    StreamPush,
    StreamFlush,
    StreamClose,
    /// An action this worker does not know, with its name.
    Unsupported(String),
    /// The JSON part could not be read as a request, with the reason.
    Invalid(String),
}

/// The id a reply carries: the request's own, or `unknown`.
pub open spec fn reply_id_of(parsed: Result<Request, String>) -> Seq<char> {
    match parsed {
        Ok(req) => match req.id {
            Some(id) => id@,
            None => "unknown"@,
        },
        Err(_) => "unknown"@,
    }
}

/// The name of the requested action; `transcribe` when none is given.
pub open spec fn action_name(req: Request) -> Seq<char> {
    match req.action {
        Some(a) => a@,
        None => "transcribe"@,
    }
}

/// Whether `action` is what a request named `name` asks of a worker; the
/// streaming worker knows the four `stream_*` actions besides `warmup` and
/// `transcribe`.
pub open spec fn routes_to(name: Seq<char>, streaming: bool, action: Action) -> bool {
    if name == "warmup"@ {
        action is Warmup
    } else if name == "transcribe"@ {
        action is Transcribe
    } else if streaming && name == "stream_reset"@ {
        action is StreamReset
    } else if streaming && name == "stream_push"@ {
        action is StreamPush
    } else if streaming && name == "stream_flush"@ {
        action is StreamFlush
    } else if streaming && name == "stream_close"@ {
        action is StreamClose
    } else {
        action matches Action::Unsupported(n) && n@ == name
    }
}

/// A routed request: the id its reply carries and what it asks for.
pub struct Dispatch {
    pub id: String,
    pub action: Action,
}

fn unknown_id() -> (r: String)
    ensures
        r@ == "unknown"@,
{
    String::from_str("unknown")
}

/// Routes a request whose JSON part was decoded into `parsed` (or failed to
/// decode, with the reason). A request that cannot be read still gets a reply,
/// under the id `unknown`.
pub fn dispatch(parsed: &Result<Request, String>, streaming: bool) -> (r: Dispatch)
    ensures
        r.id@ == reply_id_of(*parsed),
        match parsed {
            Ok(req) => routes_to(action_name(*req), streaming, r.action),
            Err(e) => r.action matches Action::Invalid(m) && m@ == "invalid JSON request: "@ + e@,
        },
{
    match parsed {
        Err(e) => {
            let mut m = String::from_str("invalid JSON request: ");
            m.append(e.as_str());
            Dispatch { id: unknown_id(), action: Action::Invalid(m) }
        },
        Ok(req) => {
            let id = match &req.id {
                Some(id) => id.clone(),
                None => unknown_id(),
            };
            let name = match &req.action {
                Some(a) => a.clone(),
                None => String::from_str("transcribe"),
            };
            let n = name.as_str();
            let action = if str_eq(n, "warmup") {
                Action::Warmup
            } else if str_eq(n, "transcribe") {
                Action::Transcribe
            } else if streaming && str_eq(n, "stream_reset") {
                Action::StreamReset
            } else if streaming && str_eq(n, "stream_push") {
                Action::StreamPush
            } else if streaming && str_eq(n, "stream_flush") {
                Action::StreamFlush
            } else if streaming && str_eq(n, "stream_close") {
                Action::StreamClose
            } else {
                Action::Unsupported(name)
            };
            Dispatch { id, action }
        },
    }
}

/// What a reply reports.
pub enum Outcome {
    /// `{ready: true}`, after `warmup` and `stream_reset`.
    Ready,
    /// `{closed: true}`, after `stream_close`.
    Closed,
    /// A transcript, with the decode's wall-clock duration in whole milliseconds.
    Transcript { text: String, duration_ms: u64 },
    /// `ok: false`, with a message for the user.
    Failed(String),
}

/// A reply frame's content.
pub struct Reply {
    pub id: String,
    pub outcome: Outcome,
}

/// The message for an action the worker does not know.
pub fn unsupported_message(name: &str) -> (r: String)
    ensures
        r@ == "Unsupported action: "@ + name@,
{
    let mut m = String::from_str("Unsupported action: ");
    m.append(name);
    m
}

/// The reply to a request that no work is needed for: warmup in the offline
/// worker (the streaming worker warms its decoder up first), close, an unknown
/// action and an unreadable request. `None` for the actions that need work.
pub fn immediate_reply(d: &Dispatch, streaming: bool) -> (r: Option<Reply>)
    ensures
        r matches Some(rep) ==> rep.id@ == d.id@,
        match d.action {
            Action::Warmup => if streaming {
                r is None
            } else {
                r matches Some(rep) && rep.outcome is Ready
            },
            Action::StreamClose => r matches Some(rep) && rep.outcome is Closed,
            Action::Unsupported(n) => r matches Some(rep) && rep.outcome matches Outcome::Failed(m)
                && m@ == "Unsupported action: "@ + n@,
            Action::Invalid(e) => r matches Some(rep) && rep.outcome matches Outcome::Failed(m)
                && m@ == e@,
            _ => r is None,
        },
{
    match &d.action {
        Action::Warmup => if streaming {
            None
        } else {
            Some(Reply { id: d.id.clone(), outcome: Outcome::Ready })
        },
        Action::StreamClose => Some(Reply { id: d.id.clone(), outcome: Outcome::Closed }),
        Action::Unsupported(n) => Some(
            Reply { id: d.id.clone(), outcome: Outcome::Failed(unsupported_message(n.as_str())) },
        ),
        Action::Invalid(e) => Some(Reply { id: d.id.clone(), outcome: Outcome::Failed(e.clone()) }),
        _ => None,
    }
}

/// The message for audio at a rate other than `INPUT_SAMPLE_RATE`.
pub open spec fn rate_mismatch(rate: u32) -> Seq<char> {
    "sampleRate mismatch: expected 16000, got "@ + crate::num::decimal(rate as nat)
}

/// Accepts only audio at `INPUT_SAMPLE_RATE`; the decoders do not resample.
pub fn check_sample_rate(sample_rate: u32) -> (r: Result<(), String>)
    ensures
        sample_rate == INPUT_SAMPLE_RATE <==> r is Ok,
        r matches Err(m) ==> m@ == rate_mismatch(sample_rate),
{
    if sample_rate == INPUT_SAMPLE_RATE {
        return Ok(());
    }
    let mut m = String::from_str("sampleRate mismatch: expected 16000, got ");
    m.append(crate::num::decimal_text(sample_rate as u64).as_str());
    Err(m)
}

} // verus!
