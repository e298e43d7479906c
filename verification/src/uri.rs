//! The components of a URI, as the `url` crate splits them.

use crate::codec::text_view;
use vstd::prelude::*;

verus! {

/// The components of a parsed URI that this library reads.
#[derive(Clone, Debug, PartialEq, Eq)]
pub struct UriParts {
    /// The scheme, in lower case, without the colon.
    pub scheme: String,
    /// The user name of the user information, percent-encoded; empty where
    /// there is none.
    pub username: String,
    /// The host as written in the normalised URI, if the URI has one.
    pub host: Option<String>,
    /// The port, or the default port of a scheme that has one.
    pub port: Option<u16>,
    /// The path.
    pub path: String,
    /// The query without its question mark, if the URI has one.
    pub query: Option<String>,
    /// The fragment without its hash sign, if the URI has one.
    pub fragment: Option<String>,
}

/// What a `UriParts` stands for in contracts.
#[verifier::ext_equal]
pub ghost struct UriPartsView {
    pub scheme: Seq<char>,
    pub username: Seq<char>,
    pub host: Option<Seq<char>>,
    pub port: Option<u16>,
    pub path: Seq<char>,
    pub query: Option<Seq<char>>,
    pub fragment: Option<Seq<char>>,
}

impl View for UriParts {
    type V = UriPartsView;

    open spec fn view(&self) -> UriPartsView {
        UriPartsView {
            scheme: self.scheme@,
            username: self.username@,
            host: text_view(self.host),
            port: self.port,
            path: self.path@,
            query: text_view(self.query),
            fragment: text_view(self.fragment),
        }
    }
}

/// The components that `url::Url::parse` finds in a text, where it accepts
/// the text as an absolute URI.
pub uninterp spec fn uri_parts(text: Seq<char>) -> Option<UriPartsView>;

/// Calls `url::Url::parse` and copies out of the `Url` what its accessors
/// `scheme`, `username`, `host_str`, `port_or_known_default`, `path`,
/// `query` and `fragment` return. Parsing depends on the text alone, so the
/// result is `uri_parts` of the text.
#[verifier::external_body]
fn url_parse(text: &str) -> (r: Result<UriParts, url::ParseError>)
    ensures
        match r {
            Ok(parts) => uri_parts(text@) == Some(parts@),
            Err(_) => uri_parts(text@) is None,
        },
{
    let u = url::Url::parse(text)?;
    Ok(UriParts {
        scheme: u.scheme().to_string(),
        username: u.username().to_string(),
        host: u.host_str().map(str::to_string),
        port: u.port_or_known_default(),
        path: u.path().to_string(),
        query: u.query().map(str::to_string),
        fragment: u.fragment().map(str::to_string),
    })
}

impl UriParts {
    /// Splits a text into the components of a URI. `None` where the text is
    /// no absolute URI.
    pub fn parse(text: &str) -> (r: Option<UriParts>)
        ensures
            match r {
                Some(parts) => uri_parts(text@) == Some(parts@),
                None => uri_parts(text@) is None,
            },
    {
        match url_parse(text) {
            Ok(parts) => Some(parts),
            Err(_) => None,
        }
    }
}

} // verus!
