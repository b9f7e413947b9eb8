//! The address of the constraints server.

use vstd::prelude::*;
use vstd::string::*;

verus! {

#[verifier::external_type_specification]
#[verifier::external_body]
pub struct ExParseError(url::ParseError);

/// URL of the constraints server to poll, unless another is configured
pub const DEFAULT_CONSTRAINT_SERVER_URL: &'static str = "http://127.0.0.1:8547";

/// What is read off a URL.
#[derive(Debug, Clone)]
pub struct UrlParts {
    pub host: Option<String>,
    pub port: Option<u16>,
}

/// Why there is no address in a URL.
#[derive(Debug)]
pub enum ServerUrlError {
    /// Failed to parse constraint_server_url
    Parse(url::ParseError),
    /// constraint_server_url missing host
    MissingHost,
    /// constraint_server_url missing port
    MissingPort,
}

/// Host and port of the URL that a text is, if it is one. A URL may be without either.
pub uninterp spec fn parsed_url(text: Seq<char>) -> Option<(Option<Seq<char>>, Option<u16>)>;

/// The text that is there, if one is.
pub open spec fn optional_text(text: Option<String>) -> Option<Seq<char>> {
    match text {
        Some(text) => Some(text@),
        None => None,
    }
}

/// `Url::parse`, with the `host_str` and `port` of the URL read off. A port is there only where
/// the URL names one that is not the default of its scheme.
#[verifier::external_body]
fn parse_url(text: &str) -> (result: Result<UrlParts, url::ParseError>)
    ensures
        parsed_url(text@) == (match result {
            Ok(parts) => Some((optional_text(parts.host), parts.port)),
            Err(_) => None,
        }),
{
    let url = url::Url::parse(text)?;
    Ok(UrlParts { host: url.host_str().map(|host| host.to_string()), port: url.port() })
}

/// The address in the parts of a URL: a host and a port, which both have to be there.
pub fn address_of(parts: Result<UrlParts, url::ParseError>) -> (result: Result<
    (String, u16),
    ServerUrlError,
>)
    ensures
        match parts {
            Ok(UrlParts { host: Some(host), port: Some(port) }) => result == Ok::<
                (String, u16),
                ServerUrlError,
            >((host, port)),
            Ok(UrlParts { host: Some(_), port: None }) => result == Err::<
                (String, u16),
                ServerUrlError,
            >(ServerUrlError::MissingPort),
            Ok(UrlParts { host: None, .. }) => result == Err::<(String, u16), ServerUrlError>(
                ServerUrlError::MissingHost,
            ),
            Err(e) => result == Err::<(String, u16), ServerUrlError>(ServerUrlError::Parse(e)),
        },
{
    match parts {
        Ok(parts) => match parts.host {
            Some(host) => match parts.port {
                Some(port) => Ok((host, port)),
                None => Err(ServerUrlError::MissingPort),
            },
            None => Err(ServerUrlError::MissingHost),
        },
        Err(e) => Err(ServerUrlError::Parse(e)),
    }
}

/// Parse the constraint server URL to extract host and port
pub fn server_address(server_url: &str) -> (result: Result<(String, u16), ServerUrlError>)
    ensures
        match parsed_url(server_url@) {
            Some((Some(host), Some(port))) => {
                &&& result matches Ok(address)
                &&& address.0@ == host
                &&& address.1 == port
            },
            Some((Some(_), None)) => result matches Err(ServerUrlError::MissingPort),
            Some((None, _)) => result matches Err(ServerUrlError::MissingHost),
            None => result matches Err(ServerUrlError::Parse(_)),
        },
{
    address_of(parse_url(server_url))
}

} // verus!
