//! Reading a URL: what the URL parser reports, and which of its refusals the
//! tool tells apart.

use crate::error::UrlParseError;
use vstd::prelude::*;

verus! {

/// `url::ParseError`: the URL parser's reasons for a refusal, an enum
/// without fields, known here by its variants.
#[verifier::external_type_specification]
pub struct ExParseError(url::ParseError);

/// What the tool keeps of a URL that the parser accepted.
#[derive(Debug, Clone, PartialEq, Eq)]
pub struct ParsedUrl {
    /// The scheme, in lower case and without the colon.
    pub scheme: String,
    /// The whole URL as the parser writes it out.
    pub text: String,
}

/// The mathematical value of a [`ParsedUrl`].
pub struct ParsedUrlModel {
    pub scheme: Seq<char>,
    pub text: Seq<char>,
}

impl View for ParsedUrl {
    type V = ParsedUrlModel;

    open spec fn view(&self) -> ParsedUrlModel {
        ParsedUrlModel { scheme: self.scheme@, text: self.text@ }
    }
}

/// What the URL parser makes of `input` read as an absolute URL: the scheme
/// and the written-out form of the URL, or the parser's refusal.
pub uninterp spec fn url_parse(input: Seq<char>) -> Result<ParsedUrlModel, url::ParseError>;

/// The mathematical value of what [`parse_url`] returns.
pub open spec fn parsed_model(parsed: Result<ParsedUrl, url::ParseError>) -> Result<
    ParsedUrlModel,
    url::ParseError,
> {
    match parsed {
        Ok(parsed) => Ok(parsed@),
        Err(refusal) => Err(refusal),
    }
}

/// Calls `url::Url::parse` on `input`. Trusted: the result is what
/// [`url_parse`] names, that is, the parser's answer depends on `input`
/// alone. Of an accepted URL the scheme (`Url::scheme`) and the written-out
/// form (`Url::as_str`) are handed on; a refusal is handed on as it is.
#[verifier::external_body]
pub(crate) fn parse_url(input: &str) -> (parsed: Result<ParsedUrl, url::ParseError>)
    ensures
        parsed_model(parsed) == url_parse(input@),
{
    match url::Url::parse(input) {
        Ok(parsed) => Ok(
            ParsedUrl { scheme: parsed.scheme().to_string(), text: parsed.as_str().to_string() },
        ),
        Err(refusal) => Err(refusal),
    }
}

/// The reason that the tool gives for a refusal of the URL parser.
pub open spec fn reason_of(refusal: url::ParseError) -> UrlParseError {
    match refusal {
        url::ParseError::RelativeUrlWithoutBase => UrlParseError::MissingScheme,
        url::ParseError::InvalidIpv6Address => UrlParseError::InvalidIpv6,
        url::ParseError::InvalidIpv4Address => UrlParseError::InvalidIpv4,
        url::ParseError::InvalidPort => UrlParseError::InvalidPort,
        _ => UrlParseError::Other,
    }
}

/// Sorts a refusal of the URL parser under one of the reasons that the tool
/// tells apart.
pub fn classify_refusal(refusal: url::ParseError) -> (reason: UrlParseError)
    ensures
        reason == reason_of(refusal),
{
    match refusal {
        url::ParseError::RelativeUrlWithoutBase => UrlParseError::MissingScheme,
        url::ParseError::InvalidIpv6Address => UrlParseError::InvalidIpv6,
        url::ParseError::InvalidIpv4Address => UrlParseError::InvalidIpv4,
        url::ParseError::InvalidPort => UrlParseError::InvalidPort,
        _ => UrlParseError::Other,
    }
}

} // verus!
