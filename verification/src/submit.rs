//! Submission: one POST of the wire record to the collection service, and
//! the reading of its answer. The network is the caller's. What is decided
//! here is what goes out and what each thing that can come back means.

use vstd::prelude::*;
use crate::detect::app::{AppFacts, AppInfo};
use crate::json::pairs_view;
use crate::payload::{wire_text, Payload};

verus! {

/// Why a submission did not go through. Each of these ends the attempt:
/// nothing is tried again.
#[derive(Debug, Clone, PartialEq, Eq)]
pub enum SubmitError {
    /// The service answered 401.
    Unauthorized,
    /// The service answered with some other status that is not a success;
    /// this is the text of its answer.
    ServerMessage(String),
    /// No answer could be had or read; this is the cause.
    Transport(String),
}

/// What is sent: one request to `url` with these headers and this body.
#[derive(Debug, Clone, PartialEq, Eq)]
pub struct Request {
    /// The method of the request.
    pub method: String,
    /// Where the request goes.
    pub url: String,
    /// The headers, each a name and its value, in order.
    pub headers: Vec<(String, String)>,
    /// The body: the wire record.
    pub body: String,
}

/// The headers of a submission by the tool `app`.
pub open spec fn request_headers(app: AppFacts) -> Seq<(Seq<char>, Seq<char>)> {
    seq![
        ("API-Version"@, "0.1"@),
        ("AppName"@, app.detect_app),
        ("AppVersion"@, app.detect_version),
        ("Content-Type"@, "application/json"@),
    ]
}

/// The request that submits `payload` to `endpoint` on behalf of `app`: a
/// POST of the wire record.
pub fn request(payload: &Payload, app: &AppInfo, endpoint: &str) -> (request: Request)
    ensures
        request.method@ == "POST"@,
        request.url@ == endpoint@,
        pairs_view(request.headers@) == request_headers(app@),
        request.body@ == wire_text(payload@),
{
    let mut headers: Vec<(String, String)> = Vec::new();
    headers.push(("API-Version".to_owned(), "0.1".to_owned()));
    headers.push(("AppName".to_owned(), app.detect_app.clone()));
    headers.push(("AppVersion".to_owned(), app.detect_version.clone()));
    headers.push(("Content-Type".to_owned(), "application/json".to_owned()));
    assert(pairs_view(headers@) =~= request_headers(app@));
    Request {
        method: "POST".to_owned(),
        url: endpoint.to_owned(),
        headers,
        body: payload.to_json(),
    }
}

/// How far a submission has come.
#[derive(Debug, PartialEq, Eq)]
pub enum Progress {
    /// The request is out, or about to be; the status of the answer is
    /// awaited.
    AwaitingStatus,
    /// The status was neither a success nor 401; the text of the answer is
    /// awaited.
    AwaitingBody,
    /// The submission is over, with this outcome.
    Done(Result<(), SubmitError>),
}

/// What the network reports back.
#[derive(Debug, Clone, PartialEq, Eq)]
pub enum Event {
    /// An answer arrived with this status code.
    Status(u16),
    /// The text of the answer was read.
    Body(String),
    /// Sending, or reading the answer, failed for this cause.
    Failure(String),
}

/// The statuses that mean the record was taken: 200 and 201.
pub open spec fn is_success(status: u16) -> bool {
    status == 200 || status == 201
}

/// Where a submission stands after `event`.
///
/// A success status ends it well, 401 ends it as unauthorized, and any
/// other status asks for the text of the answer, which then is the error's
/// message. A failure of the network ends it at either point. An event that
/// the submission is not waiting for changes nothing; in particular nothing
/// moves a submission that is over.
pub open spec fn next(progress: Progress, event: Event) -> Progress {
    match progress {
        Progress::AwaitingStatus => match event {
            Event::Status(status) => if is_success(status) {
                Progress::Done(Ok(()))
            } else if status == 401 {
                Progress::Done(Err(SubmitError::Unauthorized))
            } else {
                Progress::AwaitingBody
            },
            Event::Failure(cause) => Progress::Done(Err(SubmitError::Transport(cause))),
            Event::Body(_) => progress,
        },
        Progress::AwaitingBody => match event {
            Event::Body(text) => Progress::Done(Err(SubmitError::ServerMessage(text))),
            Event::Failure(cause) => Progress::Done(Err(SubmitError::Transport(cause))),
            Event::Status(_) => progress,
        },
        Progress::Done(_) => progress,
    }
}

/// A submission at its start.
pub fn start() -> (progress: Progress)
    ensures
        progress == Progress::AwaitingStatus,
{
    Progress::AwaitingStatus
}

/// Takes a submission one step on.
pub fn advance(progress: Progress, event: Event) -> (after: Progress)
    ensures
        after == next(progress, event),
{
    match progress {
        Progress::AwaitingStatus => match event {
            Event::Status(status) => if status == 200 || status == 201 {
                Progress::Done(Ok(()))
            } else if status == 401 {
                Progress::Done(Err(SubmitError::Unauthorized))
            } else {
                Progress::AwaitingBody
            },
            Event::Failure(cause) => Progress::Done(Err(SubmitError::Transport(cause))),
            Event::Body(_) => Progress::AwaitingStatus,
        },
        Progress::AwaitingBody => match event {
            Event::Body(text) => Progress::Done(Err(SubmitError::ServerMessage(text))),
            Event::Failure(cause) => Progress::Done(Err(SubmitError::Transport(cause))),
            Event::Status(_) => Progress::AwaitingBody,
        },
        Progress::Done(outcome) => Progress::Done(outcome),
    }
}

/// What an answer with this status and this text comes to.
pub open spec fn classified(status: u16, body: String) -> Progress {
    next(next(Progress::AwaitingStatus, Event::Status(status)), Event::Body(body))
}

/// An answer is classified by its status: 200 and 201 are success, 401 is
/// [`SubmitError::Unauthorized`], and every other status is
/// [`SubmitError::ServerMessage`] with exactly the text of the answer.
pub proof fn lemma_classification(status: u16, body: String)
    ensures
        is_success(status) ==> classified(status, body) == Progress::Done(Ok(())),
        status == 401 ==> classified(status, body) == Progress::Done(
            Err(SubmitError::Unauthorized),
        ),
        !is_success(status) && status != 401 ==> classified(status, body) == Progress::Done(
            Err(SubmitError::ServerMessage(body)),
        ),
{
}

/// A failure of the network ends a running submission as
/// [`SubmitError::Transport`] with the cause, whether it strikes before the
/// status or before the text.
pub proof fn lemma_transport(progress: Progress, cause: String)
    requires
        !(progress is Done),
    ensures
        next(progress, Event::Failure(cause)) == Progress::Done(
            Err(SubmitError::Transport(cause)),
        ),
{
}

/// A submission that is over stays as it is: there is no second attempt.
pub proof fn lemma_done_is_final(progress: Progress, event: Event)
    requires
        progress is Done,
    ensures
        next(progress, event) == progress,
{
}

/// What the error says of itself.
pub open spec fn message_of(error: SubmitError) -> Seq<char> {
    match error {
        SubmitError::Unauthorized => "unauthorized"@,
        SubmitError::ServerMessage(text) => text@,
        SubmitError::Transport(cause) => cause@,
    }
}

impl SubmitError {
    /// The error in words: `unauthorized`, the text of the service's
    /// answer, or the cause of the network's failure.
    pub fn message(&self) -> (text: String)
        ensures
            text@ == message_of(*self),
    {
        match self {
            SubmitError::Unauthorized => "unauthorized".to_owned(),
            SubmitError::ServerMessage(text) => text.clone(),
            SubmitError::Transport(cause) => cause.clone(),
        }
    }

    /// The line that reports a failed submission: `Submit failed: ` and
    /// the error's message.
    pub fn report(&self) -> (line: String)
        ensures
            line@ == "Submit failed: "@ + message_of(*self),
    {
        let mut line = "Submit failed: ".to_owned();
        let text = self.message();
        line.append(text.as_str());
        line
    }
}

} // verus!
