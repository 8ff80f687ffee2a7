//! The parts of a URL that storage targets are built from.

use crate::text::optional_text;
use vstd::prelude::*;

verus! {

/// `url::ParseError`, carried through unopened.
#[verifier::external_type_specification]
#[verifier::external_body]
pub struct ExParseError(url::ParseError);

/// A parsed URL, reduced to what requests and storage locations need.
#[derive(Clone, Debug, PartialEq, Eq)]
pub struct UrlParts {
    pub scheme: String,
    pub host: Option<String>,
    /// The port that the URL names, unless it is the scheme's default.
    pub port: Option<u16>,
    /// The port that the URL names, or else the scheme's default.
    pub known_port: Option<u16>,
    pub path: String,
}

/// The model of [`UrlParts`].
pub struct UrlView {
    pub scheme: Seq<char>,
    pub host: Option<Seq<char>>,
    pub port: Option<u16>,
    pub known_port: Option<u16>,
    pub path: Seq<char>,
}

impl View for UrlParts {
    type V = UrlView;

    open spec fn view(&self) -> UrlView {
        UrlView {
            scheme: self.scheme@,
            host: optional_text(self.host),
            port: self.port,
            known_port: self.known_port,
            path: self.path@,
        }
    }
}

/// What `url::Url::parse` makes of `text`: the URL's parts, or the reason for
/// which it is refused.
pub uninterp spec fn url_parse(text: Seq<char>) -> Result<UrlView, url::ParseError>;

/// The model of a parse result.
pub open spec fn parse_result(result: Result<UrlParts, url::ParseError>) -> Result<
    UrlView,
    url::ParseError,
> {
    match result {
        Ok(parts) => Ok(parts@),
        Err(error) => Err(error),
    }
}

/// The port that belongs to a scheme.
pub open spec fn default_port(scheme: Seq<char>) -> Option<u16> {
    if scheme == "http"@ || scheme == "ws"@ {
        Some(80u16)
    } else if scheme == "https"@ || scheme == "wss"@ {
        Some(443u16)
    } else if scheme == "ftp"@ {
        Some(21u16)
    } else {
        None
    }
}

/// Parses a URL with `url::Url::parse` and reads its parts with `scheme`,
/// `host_str`, `port`, `port_or_known_default` and `path`. Trusted: the outcome
/// is a function of the text alone, and the known port is the named port or
/// else the scheme's default.
#[verifier::external_body]
pub(crate) fn parse_url(text: &str) -> (result: Result<UrlParts, url::ParseError>)
    ensures
        parse_result(result) == url_parse(text@),
        result matches Ok(parts) ==> parts.known_port == match parts.port {
            Some(port) => Some(port),
            None => default_port(parts.scheme@),
        },
{
    let url = url::Url::parse(text)?;
    Ok(
        UrlParts {
            scheme: url.scheme().to_string(),
            host: url.host_str().map(str::to_string),
            port: url.port(),
            known_port: url.port_or_known_default(),
            path: url.path().to_string(),
        },
    )
}

} // verus!
