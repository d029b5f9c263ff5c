//! Putting the request together: which URL, which method, which body.

use crate::address::{classify_refusal, parse_url, parsed_model, reason_of, url_parse, ParsedUrl, ParsedUrlModel};
use crate::codec::{is_json, json_parse};
use crate::error::Error;
use crate::text::{joined, reads, text_of};
use vstd::prelude::*;
use vstd::string::StringExecFns;

verus! {

/// What a request carries.
#[derive(Debug, Clone, PartialEq, Eq)]
pub enum Body {
    /// Nothing.
    Empty,
    /// A raw string, sent as a form.
    RawForm(String),
    /// A JSON document, as text.
    JsonPayload(String),
}

/// The mathematical value of a [`Body`].
pub enum BodyModel {
    Empty,
    RawForm(Seq<char>),
    JsonPayload(Seq<char>),
}

impl View for Body {
    type V = BodyModel;

    open spec fn view(&self) -> BodyModel {
        match self {
            Body::Empty => BodyModel::Empty,
            Body::RawForm(data) => BodyModel::RawForm(data@),
            Body::JsonPayload(json) => BodyModel::JsonPayload(json@),
        }
    }
}

/// The request to send, fully decided.
#[derive(Debug, Clone, PartialEq, Eq)]
pub struct RequestSpec {
    pub url: ParsedUrl,
    pub method: String,
    pub body: Body,
}

/// The mathematical value of a [`RequestSpec`].
pub struct RequestModel {
    pub url: ParsedUrlModel,
    pub method: Seq<char>,
    pub body: BodyModel,
}

impl View for RequestSpec {
    type V = RequestModel;

    open spec fn view(&self) -> RequestModel {
        RequestModel { url: self.url@, method: self.method@, body: self.body@ }
    }
}

/// The schemes that the tool sends requests for.
pub open spec fn is_supported_scheme(scheme: Seq<char>) -> bool {
    scheme == "http"@ || scheme == "https"@
}

impl BodyModel {
    /// The value of the `Content-Type` header that goes with the body.
    pub open spec fn content_type(self) -> Option<Seq<char>> {
        match self {
            BodyModel::Empty => None,
            BodyModel::RawForm(_) => Some("application/x-www-form-urlencoded"@),
            BodyModel::JsonPayload(_) => Some("application/json"@),
        }
    }
}

impl RequestModel {
    /// The scheme is one that the tool sends requests for, and a request
    /// with a body is a POST.
    pub open spec fn well_formed(self) -> bool {
        &&& is_supported_scheme(self.url.scheme)
        &&& !(self.body is Empty) ==> self.method == "POST"@
    }
}

/// The URL to send the request to, or why there is none: what the parser
/// refused is refused for the parser's reason, and what it accepted is
/// refused unless its scheme is `http` or `https`.
pub open spec fn accepted_url(parsed: Result<ParsedUrlModel, url::ParseError>) -> Result<
    ParsedUrlModel,
    Error,
> {
    match parsed {
        Err(refusal) => Err(Error::UrlParse(reason_of(refusal))),
        Ok(url) => if is_supported_scheme(url.scheme) {
            Ok(url)
        } else {
            Err(Error::UnsupportedScheme)
        },
    }
}

/// Method and body of the request. A JSON payload comes first, then raw
/// data, and both make the request a POST; with neither the method is the
/// caller's, or GET where the caller names none.
pub open spec fn resolved(
    url: ParsedUrlModel,
    method: Option<Seq<char>>,
    data: Option<Seq<char>>,
    json: Option<Seq<char>>,
) -> RequestModel {
    match json {
        Some(json) => RequestModel { url, method: "POST"@, body: BodyModel::JsonPayload(json) },
        None => match data {
            Some(data) => RequestModel { url, method: "POST"@, body: BodyModel::RawForm(data) },
            None => RequestModel {
                url,
                method: match method {
                    Some(method) => method,
                    None => "GET"@,
                },
                body: BodyModel::Empty,
            },
        },
    }
}

/// The request, or the first thing that is wrong: the URL as the parser
/// sees it, then its scheme, then the JSON payload, which must be JSON
/// where there is one.
pub open spec fn built(
    parsed: Result<ParsedUrlModel, url::ParseError>,
    method: Option<Seq<char>>,
    data: Option<Seq<char>>,
    json: Option<Seq<char>>,
    json_is_valid: bool,
) -> Result<RequestModel, Error> {
    match accepted_url(parsed) {
        Err(error) => Err(error),
        Ok(url) => if json.is_some() && !json_is_valid {
            Err(Error::InvalidJsonPayload)
        } else {
            Ok(resolved(url, method, data, json))
        },
    }
}

/// Every request that is built goes to a supported scheme, and is a POST
/// where it has a body.
pub proof fn law_built_request_is_well_formed(
    parsed: Result<ParsedUrlModel, url::ParseError>,
    method: Option<Seq<char>>,
    data: Option<Seq<char>>,
    json: Option<Seq<char>>,
    json_is_valid: bool,
)
    ensures
        built(parsed, method, data, json, json_is_valid) matches Ok(request)
            ==> request.well_formed(),
{
}

/// No request is built for a URL that the parser refused, nor for one with
/// a scheme other than `http` and `https`; for every other URL the URL
/// itself is no reason to fail.
pub proof fn law_only_http_and_https_pass(parsed: Result<ParsedUrlModel, url::ParseError>)
    ensures
        accepted_url(parsed) is Ok <==> (parsed matches Ok(url) && is_supported_scheme(url.scheme)),
        accepted_url(parsed) matches Ok(url) ==> parsed == Ok::<ParsedUrlModel, url::ParseError>(url),
{
}

/// The mathematical value of what [`build`] returns.
pub open spec fn request_model(request: Result<RequestSpec, Error>) -> Result<RequestModel, Error> {
    match request {
        Ok(request) => Ok(request@),
        Err(error) => Err(error),
    }
}

/// The mathematical value of what [`check_url`] returns.
pub open spec fn url_model(url: Result<ParsedUrl, Error>) -> Result<ParsedUrlModel, Error> {
    match url {
        Ok(url) => Ok(url@),
        Err(error) => Err(error),
    }
}

/// Whether the tool sends requests for `scheme`.
pub fn supports_scheme(scheme: &String) -> (supported: bool)
    ensures
        supported == is_supported_scheme(scheme@),
{
    reads(scheme, "http") || reads(scheme, "https")
}

/// Decides on the URL from what the URL parser said of it.
pub fn check_url(parsed: Result<ParsedUrl, url::ParseError>) -> (url: Result<ParsedUrl, Error>)
    ensures
        url_model(url) == accepted_url(parsed_model(parsed)),
{
    match parsed {
        Err(refusal) => Err(Error::UrlParse(classify_refusal(refusal))),
        Ok(url) => if supports_scheme(&url.scheme) {
            Ok(url)
        } else {
            Err(Error::UnsupportedScheme)
        },
    }
}

/// Decides method and body of a request to `url`.
pub fn resolve(url: ParsedUrl, method: Option<String>, data: Option<String>, json: Option<String>) -> (request:
    RequestSpec)
    ensures
        request@ == resolved(url@, text_of(method), text_of(data), text_of(json)),
        is_supported_scheme(url.scheme@) ==> request@.well_formed(),
{
    match json {
        Some(json) => RequestSpec {
            url,
            method: String::from_str("POST"),
            body: Body::JsonPayload(json),
        },
        None => match data {
            Some(data) => RequestSpec {
                url,
                method: String::from_str("POST"),
                body: Body::RawForm(data),
            },
            None => RequestSpec {
                url,
                method: match method {
                    Some(method) => method,
                    None => String::from_str("GET"),
                },
                body: Body::Empty,
            },
        },
    }
}

/// Puts the request together from what the URL parser said of the URL and
/// from whether the JSON payload, if there is one, is JSON.
pub fn assemble(
    parsed: Result<ParsedUrl, url::ParseError>,
    method: Option<String>,
    data: Option<String>,
    json: Option<String>,
    json_is_valid: bool,
) -> (request: Result<RequestSpec, Error>)
    ensures
        request_model(request) == built(
            parsed_model(parsed),
            text_of(method),
            text_of(data),
            text_of(json),
            json_is_valid,
        ),
        request matches Ok(request) ==> request@.well_formed(),
{
    match check_url(parsed) {
        Err(error) => Err(error),
        Ok(url) => if json.is_some() && !json_is_valid {
            Err(Error::InvalidJsonPayload)
        } else {
            Ok(resolve(url, method, data, json))
        },
    }
}

/// Whether the JSON payload, where there is one, is JSON.
pub open spec fn payload_is_json(json: Option<Seq<char>>) -> bool {
    match json {
        Some(json) => json_parse(json).is_some(),
        None => false,
    }
}

/// Builds the request for the URL `url`, the method `method` (GET where
/// none is given), the raw data `data` and the JSON payload `json`.
///
/// Fails, in this order, where `url` does not parse, where its scheme is
/// neither `http` nor `https`, and where `json` is given and is not JSON.
/// A JSON payload, and after it raw data, makes the request a POST whatever
/// `method` says.
pub fn build(url: &str, method: Option<String>, data: Option<String>, json: Option<String>) -> (request:
    Result<RequestSpec, Error>)
    ensures
        request_model(request) == built(
            url_parse(url@),
            text_of(method),
            text_of(data),
            text_of(json),
            payload_is_json(text_of(json)),
        ),
        request matches Ok(request) ==> request@.well_formed(),
{
    let json_is_valid = match &json {
        Some(json) => is_json(json.as_str()),
        None => false,
    };
    assemble(parse_url(url), method, data, json, json_is_valid)
}

impl RequestSpec {
    /// The value of the `Content-Type` header to send, if any.
    pub fn content_type(&self) -> (value: Option<String>)
        ensures
            text_of(value) == self@.body.content_type(),
    {
        match &self.body {
            Body::Empty => None,
            Body::RawForm(_) => Some(String::from_str("application/x-www-form-urlencoded")),
            Body::JsonPayload(_) => Some(String::from_str("application/json")),
        }
    }

    /// The lines that say what is about to be sent: the URL, the method,
    /// and the body where there is one.
    pub fn trace(&self) -> (lines: Vec<String>)
        ensures
            lines@.len() == if self@.body is Empty { 2int } else { 3int },
            lines@[0]@ == "Requesting URL: "@ + self@.url.text,
            lines@[1]@ == "Method: "@ + self@.method,
            self@.body matches BodyModel::RawForm(data) ==> lines@[2]@ == "Data: "@ + data,
            self@.body matches BodyModel::JsonPayload(json) ==> lines@[2]@ == "JSON: "@ + json,
    {
        let mut lines: Vec<String> = Vec::new();
        lines.push(joined("Requesting URL: ", self.url.text.as_str()));
        lines.push(joined("Method: ", self.method.as_str()));
        match &self.body {
            Body::Empty => {},
            Body::RawForm(data) => {
                lines.push(joined("Data: ", data.as_str()));
            },
            Body::JsonPayload(json) => {
                lines.push(joined("JSON: ", json.as_str()));
            },
        }
        lines
    }
}

} // verus!
