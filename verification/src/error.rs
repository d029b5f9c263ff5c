//! What can go wrong with a request, and how each failure is reported.

use crate::text::{decimal, decimal_string, joined};
use vstd::prelude::*;
use vstd::string::StringExecFns;

verus! {

/// Why a string is not a URL, as far as the tool tells reasons apart.
#[derive(Debug, Clone, Copy, PartialEq, Eq, Structural)]
pub enum UrlParseError {
    /// The string has no scheme and nothing to be relative to.
    MissingScheme,
    InvalidIpv6,
    InvalidIpv4,
    InvalidPort,
    /// Any other reason.
    Other,
}

/// A failure of the one request that a run makes. Each ends the run: nothing
/// is tried again.
#[derive(Debug, Clone, Copy, PartialEq, Eq, Structural)]
pub enum Error {
    /// The URL could not be parsed.
    UrlParse(UrlParseError),
    /// The URL was parsed, but its scheme is neither `http` nor `https`.
    UnsupportedScheme,
    /// The JSON payload given for the request is not JSON.
    InvalidJsonPayload,
    /// No response came: the connection, name resolution, TLS or the like
    /// failed.
    TransportFailure,
    /// A response came with a status outside 200..=299.
    HttpStatusFailure(u16),
    /// The body of the response could not be read as text.
    BodyDecodeError,
}

impl Error {
    /// The line that reports this failure.
    pub open spec fn message_text(self) -> Seq<char> {
        match self {
            Error::UrlParse(UrlParseError::MissingScheme) => "Error: The URL does not have a valid base protocol."@,
            Error::UrlParse(UrlParseError::InvalidIpv6) => "Error: The URL contains an invalid IPv6 address."@,
            Error::UrlParse(UrlParseError::InvalidIpv4) => "Error: The URL contains an invalid IPv4 address."@,
            Error::UrlParse(UrlParseError::InvalidPort) => "Error: The URL contains an invalid port number."@,
            Error::UrlParse(UrlParseError::Other) => "Error: The URL is not valid."@,
            Error::UnsupportedScheme => "Error: The URL does not have a valid base protocol."@,
            Error::InvalidJsonPayload => "Error: The JSON payload is not valid JSON."@,
            Error::TransportFailure => "Error: Unable to connect to the server. Perhaps the network is offline or the server hostname cannot be resolved."@,
            Error::HttpStatusFailure(code) => "Error: Request failed with status code: "@ + decimal(
                code as nat,
            ) + "."@,
            Error::BodyDecodeError => "Error: The response body could not be read as text."@,
        }
    }

    /// The exit code of a run that ended in this failure.
    pub open spec fn exit_code_of(self) -> u8 {
        match self {
            Error::UrlParse(_) => 2,
            Error::UnsupportedScheme => 3,
            Error::InvalidJsonPayload => 4,
            Error::TransportFailure => 5,
            Error::HttpStatusFailure(_) => 6,
            Error::BodyDecodeError => 7,
        }
    }

    /// The line that reports this failure. It names no cause beyond the kind
    /// of failure and, for a refused status, the status code.
    pub fn message(&self) -> (text: String)
        ensures
            text@ == self.message_text(),
    {
        match self {
            Error::UrlParse(UrlParseError::MissingScheme) => String::from_str(
                "Error: The URL does not have a valid base protocol.",
            ),
            Error::UrlParse(UrlParseError::InvalidIpv6) => String::from_str(
                "Error: The URL contains an invalid IPv6 address.",
            ),
            Error::UrlParse(UrlParseError::InvalidIpv4) => String::from_str(
                "Error: The URL contains an invalid IPv4 address.",
            ),
            Error::UrlParse(UrlParseError::InvalidPort) => String::from_str(
                "Error: The URL contains an invalid port number.",
            ),
            Error::UrlParse(UrlParseError::Other) => String::from_str("Error: The URL is not valid."),
            Error::UnsupportedScheme => String::from_str(
                "Error: The URL does not have a valid base protocol.",
            ),
            Error::InvalidJsonPayload => String::from_str("Error: The JSON payload is not valid JSON."),
            Error::TransportFailure => String::from_str(
                "Error: Unable to connect to the server. Perhaps the network is offline or the server hostname cannot be resolved.",
            ),
            Error::HttpStatusFailure(code) => {
                let number = decimal_string(*code);
                let mut text = joined("Error: Request failed with status code: ", number.as_str());
                text.append(".");
                text
            },
            Error::BodyDecodeError => String::from_str(
                "Error: The response body could not be read as text.",
            ),
        }
    }

    /// The exit code of a run that ended in this failure: never zero, and a
    /// different one for each kind of failure.
    pub fn exit_code(&self) -> (code: u8)
        ensures
            code == self.exit_code_of(),
            code != 0,
    {
        match self {
            Error::UrlParse(_) => 2,
            Error::UnsupportedScheme => 3,
            Error::InvalidJsonPayload => 4,
            Error::TransportFailure => 5,
            Error::HttpStatusFailure(_) => 6,
            Error::BodyDecodeError => 7,
        }
    }
}

} // verus!
