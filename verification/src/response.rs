//! Showing the response: what came back, and what is printed for it.

use crate::codec::{json_parse, sorted_text, sorted_text_of};
use crate::error::Error;
use crate::text::{joined, text_of};
use vstd::prelude::*;

verus! {

/// Why no response came, in the transport's own words.
#[derive(Debug, Clone, PartialEq, Eq)]
pub struct TransportError {
    pub reason: String,
}

/// A response as the transport hands it over.
#[derive(Debug, Clone, PartialEq, Eq)]
pub struct RawResponse {
    /// The status code.
    pub status: u16,
    /// The body as text, where it was read and could be read as text.
    pub body: Option<String>,
}

/// The mathematical value of a [`RawResponse`].
pub struct RawResponseModel {
    pub status: u16,
    pub body: Option<Seq<char>>,
}

impl View for RawResponse {
    type V = RawResponseModel;

    open spec fn view(&self) -> RawResponseModel {
        RawResponseModel { status: self.status, body: text_of(self.body) }
    }
}

/// How the request went.
#[derive(Debug, Clone, PartialEq, Eq)]
pub enum ResponseOutcome {
    /// No response came; the reason is the transport's.
    TransportFailure(String),
    /// A response came with this status, which is not a success.
    HttpStatusFailure(u16),
    /// A response came with a success status and this body.
    Success(String),
}

/// The mathematical value of a [`ResponseOutcome`].
pub enum OutcomeModel {
    TransportFailure(Seq<char>),
    HttpStatusFailure(u16),
    Success(Seq<char>),
}

impl View for ResponseOutcome {
    type V = OutcomeModel;

    open spec fn view(&self) -> OutcomeModel {
        match self {
            ResponseOutcome::TransportFailure(reason) => OutcomeModel::TransportFailure(reason@),
            ResponseOutcome::HttpStatusFailure(status) => OutcomeModel::HttpStatusFailure(*status),
            ResponseOutcome::Success(body) => OutcomeModel::Success(body@),
        }
    }
}

/// What is printed for a response that was a success.
#[derive(Debug, Clone, PartialEq, Eq)]
pub enum RenderedOutput {
    /// The body was JSON: its canonical form, written out over indented
    /// lines.
    SortedJson(String),
    /// The body was not JSON: the body as it came.
    RawText(String),
}

/// The mathematical value of a [`RenderedOutput`].
pub enum RenderedModel {
    SortedJson(Seq<char>),
    RawText(Seq<char>),
}

impl View for RenderedOutput {
    type V = RenderedModel;

    open spec fn view(&self) -> RenderedModel {
        match self {
            RenderedOutput::SortedJson(text) => RenderedModel::SortedJson(text@),
            RenderedOutput::RawText(text) => RenderedModel::RawText(text@),
        }
    }
}

impl RenderedModel {
    /// What goes to standard output: a heading that says which of the two
    /// it is, a line break, and the text.
    pub open spec fn text(self) -> Seq<char> {
        match self {
            RenderedModel::SortedJson(text) => "Response body (JSON with sorted keys):\n"@ + text,
            RenderedModel::RawText(text) => "Response body:\n"@ + text,
        }
    }
}

impl RenderedOutput {
    /// What goes to standard output.
    pub fn text(&self) -> (text: String)
        ensures
            text@ == self@.text(),
    {
        match self {
            RenderedOutput::SortedJson(text) => joined(
                "Response body (JSON with sorted keys):\n",
                text.as_str(),
            ),
            RenderedOutput::RawText(text) => joined("Response body:\n", text.as_str()),
        }
    }
}

/// The statuses that count as success: 200 to 299.
pub open spec fn is_success_status(status: u16) -> bool {
    200 <= status < 300
}

/// Whether `status` counts as success. Only then is the body of a response
/// read.
pub fn is_success(status: u16) -> (success: bool)
    ensures
        success == is_success_status(status),
{
    200 <= status && status < 300
}

/// How the request went, from what the transport handed over. A response
/// with a success status whose body could not be read as text is a failure
/// of its own.
pub open spec fn outcome_of(result: Result<RawResponseModel, Seq<char>>) -> Result<
    OutcomeModel,
    Error,
> {
    match result {
        Err(reason) => Ok(OutcomeModel::TransportFailure(reason)),
        Ok(response) => if !is_success_status(response.status) {
            Ok(OutcomeModel::HttpStatusFailure(response.status))
        } else {
            match response.body {
                Some(body) => Ok(OutcomeModel::Success(body)),
                None => Err(Error::BodyDecodeError),
            }
        },
    }
}

/// What is shown for `outcome`, where `shown` is the body written out as
/// sorted JSON, or nothing where the body is not JSON or could not be
/// written out. No failure shows a body, and the failures of the transport
/// are not told apart.
pub open spec fn shown_with(outcome: OutcomeModel, shown: Option<Seq<char>>) -> Result<
    RenderedModel,
    Error,
> {
    match outcome {
        OutcomeModel::TransportFailure(_) => Err(Error::TransportFailure),
        OutcomeModel::HttpStatusFailure(status) => Err(Error::HttpStatusFailure(status)),
        OutcomeModel::Success(body) => match shown {
            Some(text) => Ok(RenderedModel::SortedJson(text)),
            None => Ok(RenderedModel::RawText(body)),
        },
    }
}

/// What is shown for `outcome`: for a success the body, as sorted JSON where
/// it is JSON and as it came where it is not.
pub open spec fn shown(outcome: OutcomeModel) -> Result<RenderedModel, Error> {
    match outcome {
        OutcomeModel::Success(body) => shown_with(outcome, sorted_text_of(json_parse(body))),
        _ => shown_with(outcome, None),
    }
}

/// What is shown for what the transport handed over.
pub open spec fn rendered(result: Result<RawResponseModel, Seq<char>>) -> Result<
    RenderedModel,
    Error,
> {
    match outcome_of(result) {
        Ok(outcome) => shown(outcome),
        Err(error) => Err(error),
    }
}

/// A response whose status is no success is reported by its status alone:
/// whatever its body holds, and whether or not there is one, is not shown.
pub proof fn law_refused_status_shows_no_body(
    status: u16,
    body: Option<Seq<char>>,
    other: Option<Seq<char>>,
)
    requires
        !is_success_status(status),
    ensures
        rendered(Ok(RawResponseModel { status, body })) == Err::<RenderedModel, Error>(
            Error::HttpStatusFailure(status),
        ),
        rendered(Ok(RawResponseModel { status, body })) == rendered(
            Ok(RawResponseModel { status, body: other }),
        ),
{
}

/// Every failure of the transport is reported alike, whatever its reason.
pub proof fn law_transport_failures_look_alike(reason: Seq<char>, other: Seq<char>)
    ensures
        rendered(Err(reason)) == Err::<RenderedModel, Error>(Error::TransportFailure),
        rendered(Err(reason)) == rendered(Err(other)),
{
}

/// A body is shown only for a response with a success status, and then the
/// body is either shown as sorted JSON or as it came.
pub proof fn law_only_success_shows_a_body(result: Result<RawResponseModel, Seq<char>>)
    ensures
        rendered(result) matches Ok(output) ==> {
            &&& result matches Ok(response)
            &&& is_success_status(response.status)
            &&& response.body matches Some(body)
            &&& (output == RenderedModel::RawText(body) || output is SortedJson)
        },
{
}

/// The mathematical value of what the transport hands over.
pub open spec fn transport_model(result: Result<RawResponse, TransportError>) -> Result<
    RawResponseModel,
    Seq<char>,
> {
    match result {
        Ok(response) => Ok(response@),
        Err(error) => Err(error.reason@),
    }
}

/// The mathematical value of what [`classify`] returns.
pub open spec fn outcome_model(outcome: Result<ResponseOutcome, Error>) -> Result<
    OutcomeModel,
    Error,
> {
    match outcome {
        Ok(outcome) => Ok(outcome@),
        Err(error) => Err(error),
    }
}

/// The mathematical value of what [`render`] returns.
pub open spec fn rendered_model(output: Result<RenderedOutput, Error>) -> Result<
    RenderedModel,
    Error,
> {
    match output {
        Ok(output) => Ok(output@),
        Err(error) => Err(error),
    }
}

/// Says how the request went, from what the transport handed over.
pub fn classify(result: Result<RawResponse, TransportError>) -> (outcome: Result<
    ResponseOutcome,
    Error,
>)
    ensures
        outcome_model(outcome) == outcome_of(transport_model(result)),
{
    match result {
        Err(error) => Ok(ResponseOutcome::TransportFailure(error.reason)),
        Ok(response) => if !is_success(response.status) {
            Ok(ResponseOutcome::HttpStatusFailure(response.status))
        } else {
            match response.body {
                Some(body) => Ok(ResponseOutcome::Success(body)),
                None => Err(Error::BodyDecodeError),
            }
        },
    }
}

/// Decides what is shown for `outcome`, given the body written out as sorted
/// JSON (`shown`), or nothing where the body is not JSON or could not be
/// written out.
pub fn show_with(outcome: ResponseOutcome, shown: Option<String>) -> (output: Result<
    RenderedOutput,
    Error,
>)
    ensures
        rendered_model(output) == shown_with(outcome@, text_of(shown)),
{
    match outcome {
        ResponseOutcome::TransportFailure(_) => Err(Error::TransportFailure),
        ResponseOutcome::HttpStatusFailure(status) => Err(Error::HttpStatusFailure(status)),
        ResponseOutcome::Success(body) => match shown {
            Some(text) => Ok(RenderedOutput::SortedJson(text)),
            None => Ok(RenderedOutput::RawText(body)),
        },
    }
}

/// Decides what is shown for `outcome`. The body of a success is read as
/// JSON; where it is JSON it is shown in canonical form over indented
/// lines, and where it is not it is shown as it came.
pub fn show(outcome: ResponseOutcome) -> (output: Result<RenderedOutput, Error>)
    ensures
        rendered_model(output) == shown(outcome@),
{
    let text = match &outcome {
        ResponseOutcome::Success(body) => sorted_text(body.as_str()),
        _ => None,
    };
    show_with(outcome, text)
}

/// Decides what is shown for what the transport handed over: the output for
/// a success, or the failure to report.
pub fn render(result: Result<RawResponse, TransportError>) -> (output: Result<RenderedOutput, Error>)
    ensures
        rendered_model(output) == rendered(transport_model(result)),
{
    match classify(result) {
        Ok(outcome) => show(outcome),
        Err(error) => Err(error),
    }
}

} // verus!
