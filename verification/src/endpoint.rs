//! The address of the game server.
//!
//! The address is configured once, at startup. Where none is configured the
//! bridge falls back on a server on the local machine.

use vstd::prelude::*;

verus! {

/// Why the connection to the server cannot be used.
#[derive(Debug, Clone, PartialEq, Eq)]
pub enum TransportError {
    /// The configured address is no URL; it is handed back as it was given.
    InvalidEndpoint(String),
}

/// What `url::Url::parse` makes of `text`: the serialization of the URL that
/// it parses to, or nothing where it refuses the text.
pub uninterp spec fn normalized_url(text: Seq<char>) -> Option<Seq<char>>;

/// Parses `text` as an absolute URL with `url::Url::parse` and hands back
/// the URL's serialization.
///
/// Not verified: the contract only gives the outcome its name,
/// [`normalized_url`], which is sound because the parser reads nothing but
/// its argument and never panics.
#[verifier::external_body]
fn parse_url(text: &str) -> (parsed: Option<String>)
    ensures
        match parsed {
            Some(url) => normalized_url(text@) == Some(url@),
            None => normalized_url(text@) is None,
        },
{
    match url::Url::parse(text) {
        Ok(url) => Some(String::from(url)),
        Err(_) => None,
    }
}

/// The address that is used where none is configured.
pub open spec fn spec_default_endpoint() -> Seq<char> {
    "ws://127.0.0.1:1453/"@
}

/// The address that is used where none is configured.
pub fn default_endpoint() -> (text: &'static str)
    ensures
        text@ == spec_default_endpoint(),
{
    "ws://127.0.0.1:1453/"
}

/// The address that `configured` stands for: itself, or the default where
/// it is unset.
pub open spec fn chosen_endpoint(configured: Option<&str>) -> Seq<char> {
    match configured {
        Some(text) => text@,
        None => spec_default_endpoint(),
    }
}

/// A server address that has been parsed as a URL.
///
/// Its view is the URL in its serialized form.
#[derive(Debug, Clone, PartialEq, Eq)]
pub struct Endpoint {
    url: String,
}

impl View for Endpoint {
    type V = Seq<char>;

    closed spec fn view(&self) -> Seq<char> {
        self.url@
    }
}

impl Endpoint {
    /// Makes an endpoint of what the parser made of `text`: the parsed URL
    /// if there is one, and otherwise the error that hands `text` back.
    pub fn from_parsed(text: &str, parsed: Option<String>) -> (outcome: Result<
        Endpoint,
        TransportError,
    >)
        ensures
            match parsed {
                Some(url) => outcome matches Ok(endpoint) && endpoint@ == url@,
                None => outcome matches Err(TransportError::InvalidEndpoint(given)) && given@
                    == text@,
            },
    {
        match parsed {
            Some(url) => Ok(Endpoint { url }),
            None => Err(TransportError::InvalidEndpoint(text.to_owned())),
        }
    }

    /// Resolves the configured address, or the default where none is
    /// configured, to an endpoint.
    ///
    /// The outcome is the endpoint of the URL that the address parses to,
    /// or, where it does not parse, the error that hands the address back.
    pub fn resolve(configured: Option<&str>) -> (outcome: Result<Endpoint, TransportError>)
        ensures
            match normalized_url(chosen_endpoint(configured)) {
                Some(url) => outcome matches Ok(endpoint) && endpoint@ == url,
                None => outcome matches Err(TransportError::InvalidEndpoint(given)) && given@
                    == chosen_endpoint(configured),
            },
    {
        let text = match configured {
            Some(text) => text,
            None => default_endpoint(),
        };
        let parsed = parse_url(text);
        Endpoint::from_parsed(text, parsed)
    }

    /// The URL in its serialized form.
    pub fn as_str(&self) -> (url: &str)
        ensures
            url@ == self@,
    {
        self.url.as_str()
    }
}

} // verus!
