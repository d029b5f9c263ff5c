use minicurl::address::{classify_refusal, ParsedUrl};
use minicurl::error::{Error, UrlParseError};
use minicurl::request::{assemble, build, check_url, resolve, supports_scheme, Body, RequestSpec};

fn some(s: &str) -> Option<String> {
    Some(s.to_string())
}

fn example() -> ParsedUrl {
    ParsedUrl { scheme: "http".to_string(), text: "http://example.com/".to_string() }
}

#[test]
fn json_payload_makes_a_post() {
    let request = build("http://example.com/", None, None, some("{\"a\":1}")).unwrap();
    assert_eq!(request.method, "POST");
    assert_eq!(request.content_type(), some("application/json"));
    assert_eq!(request.body, Body::JsonPayload("{\"a\":1}".to_string()));
    assert_eq!(request.url.text, "http://example.com/");
}

#[test]
fn json_payload_overrides_the_method() {
    let request = build("http://example.com/", some("GET"), None, some("{\"a\":1}")).unwrap();
    assert_eq!(request.method, "POST");
    assert_eq!(request.body, Body::JsonPayload("{\"a\":1}".to_string()));
}

#[test]
fn raw_data_makes_a_post() {
    let request = build("http://example.com/", None, some("a=1&b=2"), None).unwrap();
    assert_eq!(request.method, "POST");
    assert_eq!(request.content_type(), some("application/x-www-form-urlencoded"));
    assert_eq!(request.body, Body::RawForm("a=1&b=2".to_string()));
}

#[test]
fn raw_data_overrides_the_method() {
    let request = build("http://example.com/", some("PUT"), some("a=1&b=2"), None).unwrap();
    assert_eq!(request.method, "POST");
    assert_eq!(request.body, Body::RawForm("a=1&b=2".to_string()));
}

#[test]
fn json_payload_comes_before_raw_data() {
    let request = build("http://example.com/", None, some("a=1"), some("[1]")).unwrap();
    assert_eq!(request.method, "POST");
    assert_eq!(request.content_type(), some("application/json"));
    assert_eq!(request.body, Body::JsonPayload("[1]".to_string()));
}

#[test]
fn no_body_defaults_to_get() {
    let request = build("http://example.com/", None, None, None).unwrap();
    assert_eq!(request.method, "GET");
    assert_eq!(request.body, Body::Empty);
    assert_eq!(request.content_type(), None);
}

#[test]
fn no_body_keeps_the_given_method() {
    let request = build("http://example.com/", some("PUT"), None, None).unwrap();
    assert_eq!(request.method, "PUT");
    assert_eq!(request.body, Body::Empty);
    assert_eq!(request.content_type(), None);
}

#[test]
fn ftp_is_refused_for_its_scheme() {
    assert_eq!(build("ftp://example.com", None, None, None), Err(Error::UnsupportedScheme));
}

#[test]
fn other_schemes_are_refused() {
    assert_eq!(build("file:///tmp/x", None, None, None), Err(Error::UnsupportedScheme));
    assert_eq!(build("mailto:a@example.com", None, None, None), Err(Error::UnsupportedScheme));
    assert_eq!(build("ws://example.com/", None, None, None), Err(Error::UnsupportedScheme));
    assert_eq!(build("httpx://example.com/", None, None, None), Err(Error::UnsupportedScheme));
}

#[test]
fn what_is_no_url_is_refused() {
    assert_eq!(
        build("not a url", None, None, None),
        Err(Error::UrlParse(UrlParseError::MissingScheme))
    );
}

#[test]
fn url_refusals_are_told_apart() {
    assert_eq!(
        build("example.com/path", None, None, None),
        Err(Error::UrlParse(UrlParseError::MissingScheme))
    );
    assert_eq!(
        build("http://[:::1]/", None, None, None),
        Err(Error::UrlParse(UrlParseError::InvalidIpv6))
    );
    assert_eq!(
        build("http://1.2.3.256/", None, None, None),
        Err(Error::UrlParse(UrlParseError::InvalidIpv4))
    );
    assert_eq!(
        build("http://example.com:99999/", None, None, None),
        Err(Error::UrlParse(UrlParseError::InvalidPort))
    );
    assert_eq!(build("http://", None, None, None), Err(Error::UrlParse(UrlParseError::Other)));
    assert_eq!(
        build("http://exa mple.com/", None, None, None),
        Err(Error::UrlParse(UrlParseError::Other))
    );
}

#[test]
fn parser_refusals_map_to_reasons() {
    assert_eq!(classify_refusal(url::ParseError::RelativeUrlWithoutBase), UrlParseError::MissingScheme);
    assert_eq!(classify_refusal(url::ParseError::InvalidIpv6Address), UrlParseError::InvalidIpv6);
    assert_eq!(classify_refusal(url::ParseError::InvalidIpv4Address), UrlParseError::InvalidIpv4);
    assert_eq!(classify_refusal(url::ParseError::InvalidPort), UrlParseError::InvalidPort);
    assert_eq!(classify_refusal(url::ParseError::EmptyHost), UrlParseError::Other);
    assert_eq!(classify_refusal(url::ParseError::IdnaError), UrlParseError::Other);
    assert_eq!(classify_refusal(url::ParseError::InvalidDomainCharacter), UrlParseError::Other);
    assert_eq!(classify_refusal(url::ParseError::RelativeUrlWithCannotBeABaseBase), UrlParseError::Other);
    assert_eq!(classify_refusal(url::ParseError::SetHostOnCannotBeABaseUrl), UrlParseError::Other);
    assert_eq!(classify_refusal(url::ParseError::Overflow), UrlParseError::Other);
}

#[test]
fn the_url_is_kept_as_the_parser_writes_it() {
    let request = build("HTTPS://Example.COM:443/a/../b?q=1#f", None, None, None).unwrap();
    assert_eq!(request.url.scheme, "https");
    assert_eq!(request.url.text, "https://example.com/b?q=1#f");
    let request = build("http://example.com", None, None, None).unwrap();
    assert_eq!(request.url.scheme, "http");
    assert_eq!(request.url.text, "http://example.com/");
}

#[test]
fn a_payload_that_is_not_json_is_refused() {
    assert_eq!(
        build("http://example.com/", None, None, some("{not json")),
        Err(Error::InvalidJsonPayload)
    );
    assert_eq!(build("http://example.com/", None, some("a=1"), some("")), Err(Error::InvalidJsonPayload));
}

#[test]
fn the_url_is_judged_before_the_payload() {
    assert_eq!(
        build("not a url", None, None, some("{not json")),
        Err(Error::UrlParse(UrlParseError::MissingScheme))
    );
    assert_eq!(build("ftp://example.com", None, None, some("{not json")), Err(Error::UnsupportedScheme));
}

#[test]
fn raw_data_need_not_be_json() {
    let request = build("http://example.com/", None, some("{not json"), None).unwrap();
    assert_eq!(request.body, Body::RawForm("{not json".to_string()));
}

#[test]
fn schemes_that_are_supported() {
    assert!(supports_scheme(&"http".to_string()));
    assert!(supports_scheme(&"https".to_string()));
    assert!(!supports_scheme(&"ftp".to_string()));
    assert!(!supports_scheme(&"HTTP".to_string()));
    assert!(!supports_scheme(&"".to_string()));
    assert!(!supports_scheme(&"httpss".to_string()));
}

#[test]
fn check_url_judges_what_the_parser_said() {
    assert_eq!(check_url(Ok(example())), Ok(example()));
    assert_eq!(
        check_url(Ok(ParsedUrl { scheme: "ftp".to_string(), text: "ftp://example.com/".to_string() })),
        Err(Error::UnsupportedScheme)
    );
    assert_eq!(
        check_url(Err(url::ParseError::InvalidPort)),
        Err(Error::UrlParse(UrlParseError::InvalidPort))
    );
    assert_eq!(check_url(Err(url::ParseError::EmptyHost)), Err(Error::UrlParse(UrlParseError::Other)));
}

#[test]
fn resolve_decides_method_and_body() {
    assert_eq!(
        resolve(example(), some("DELETE"), None, None),
        RequestSpec { url: example(), method: "DELETE".to_string(), body: Body::Empty }
    );
    assert_eq!(
        resolve(example(), some("DELETE"), some("d"), None),
        RequestSpec { url: example(), method: "POST".to_string(), body: Body::RawForm("d".to_string()) }
    );
    assert_eq!(
        resolve(example(), some("DELETE"), some("d"), some("1")),
        RequestSpec { url: example(), method: "POST".to_string(), body: Body::JsonPayload("1".to_string()) }
    );
}

#[test]
fn assemble_goes_by_what_it_is_told() {
    assert_eq!(
        assemble(Ok(example()), None, None, some("whatever"), true),
        Ok(RequestSpec {
            url: example(),
            method: "POST".to_string(),
            body: Body::JsonPayload("whatever".to_string())
        })
    );
    assert_eq!(assemble(Ok(example()), None, None, some("1"), false), Err(Error::InvalidJsonPayload));
    assert_eq!(
        assemble(Ok(example()), None, None, None, false),
        Ok(RequestSpec { url: example(), method: "GET".to_string(), body: Body::Empty })
    );
    assert_eq!(
        assemble(Err(url::ParseError::InvalidIpv4Address), None, None, some("1"), false),
        Err(Error::UrlParse(UrlParseError::InvalidIpv4))
    );
}

#[test]
fn trace_names_url_method_and_body() {
    let request = build("http://example.com", None, None, None).unwrap();
    assert_eq!(
        request.trace(),
        vec!["Requesting URL: http://example.com/".to_string(), "Method: GET".to_string()]
    );
    let request = build("http://example.com", None, some("a=1&b=2"), None).unwrap();
    assert_eq!(
        request.trace(),
        vec![
            "Requesting URL: http://example.com/".to_string(),
            "Method: POST".to_string(),
            "Data: a=1&b=2".to_string()
        ]
    );
    let request = build("http://example.com", None, None, some("{\"a\":1}")).unwrap();
    assert_eq!(
        request.trace(),
        vec![
            "Requesting URL: http://example.com/".to_string(),
            "Method: POST".to_string(),
            "JSON: {\"a\":1}".to_string()
        ]
    );
}
