//! The `ssconf` URI: a pointer to an HTTPS location that serves a list of
//! configurations.

use crate::codec::{form_decode, form_pairs, text_view};
use crate::extra::{collected, value_of, Entries, Extra};
use crate::port::{decimal_text, push_decimal};
use crate::text::chars_of;
use crate::uri::{uri_parts, UriParts, UriPartsView};
use vstd::prelude::*;
use vstd::string::StringExecFns;

verus! {

/// Where a list of configurations is served, and how to ask for it.
#[derive(Clone, Debug, PartialEq, Eq)]
pub struct SIP008Config {
    /// The HTTPS URL of the list: host, port and path.
    pub location: String,
    /// The fingerprint of the server's certificate.
    pub cert_finger_print: Option<String>,
    /// The HTTP method to use.
    pub http_method: Option<String>,
}

/// Why a text was not accepted as an `ssconf` URI.
#[derive(Debug, PartialEq, Eq, Structural, Clone, Copy)]
pub enum SIP008ParseError {
    InvalidUrl,
    InvalidProtocol,
    InvalidPort,
    InvalidHost,
}

/// What a `SIP008Config` stands for in contracts.
#[verifier::ext_equal]
pub ghost struct SIP008ConfigView {
    pub location: Seq<char>,
    pub cert_finger_print: Option<Seq<char>>,
    pub http_method: Option<Seq<char>>,
}

impl View for SIP008Config {
    type V = SIP008ConfigView;

    open spec fn view(&self) -> SIP008ConfigView {
        SIP008ConfigView {
            location: self.location@,
            cert_finger_print: text_view(self.cert_finger_print),
            http_method: text_view(self.http_method),
        }
    }
}

/// What the parser returns, as contracts see it.
pub open spec fn sip008_view(r: Result<SIP008Config, SIP008ParseError>) -> Result<
    SIP008ConfigView,
    SIP008ParseError,
> {
    match r {
        Ok(c) => Ok(c@),
        Err(e) => Err(e),
    }
}

/// Whether a scheme is accepted: it starts with `ssconf`.
pub open spec fn ssconf_scheme(scheme: Seq<char>) -> bool {
    scheme.len() >= 6 && scheme.take(6) == seq!['s', 's', 'c', 'o', 'n', 'f']
}

/// The key of the certificate fingerprint among the fragment's parameters.
pub open spec fn cert_key() -> Seq<char> {
    seq!['c', 'e', 'r', 't', 'F', 'p']
}

/// The key of the HTTP method among the fragment's parameters.
pub open spec fn method_key() -> Seq<char> {
    seq!['h', 't', 't', 'p', 'M', 'e', 't', 'h', 'o', 'd']
}

/// The port of the location: that of the URI, or 443.
pub open spec fn location_port(port: Option<u16>) -> u16 {
    match port {
        Some(p) => p,
        None => 443,
    }
}

/// The HTTPS URL made of a host, a port and a path.
pub open spec fn location_text(host: Seq<char>, port: u16, path: Seq<char>) -> Seq<char> {
    seq!['h', 't', 't', 'p', 's', ':', '/', '/'] + host + seq![':'] + decimal_text(port as nat)
        + path
}

/// The configuration that the components of a URI give, taken together
/// with the pairs that its fragment holds. Of two pairs with one key the
/// later stays.
pub open spec fn sip008_with(parts: UriPartsView, pairs: Entries) -> Result<
    SIP008ConfigView,
    SIP008ParseError,
> {
    if !ssconf_scheme(parts.scheme) {
        Err(SIP008ParseError::InvalidProtocol)
    } else {
        match parts.host {
            None => Err(SIP008ParseError::InvalidUrl),
            Some(host) => Ok(
                SIP008ConfigView {
                    location: location_text(host, location_port(parts.port), parts.path),
                    cert_finger_print: value_of(collected(pairs), cert_key()),
                    http_method: value_of(collected(pairs), method_key()),
                },
            ),
        }
    }
}

/// The fragment of a URI, empty where it has none.
pub open spec fn fragment_of_parts(parts: UriPartsView) -> Seq<char> {
    match parts.fragment {
        Some(f) => f,
        None => Seq::empty(),
    }
}

/// The configuration that the components of an `ssconf` URI give.
pub open spec fn sip008_of_parts(parts: UriPartsView) -> Result<
    SIP008ConfigView,
    SIP008ParseError,
> {
    sip008_with(parts, form_pairs(fragment_of_parts(parts)))
}

/// What parsing a text as an `ssconf` URI gives.
pub open spec fn sip008_outcome(text: Seq<char>) -> Result<SIP008ConfigView, SIP008ParseError> {
    match uri_parts(text) {
        Some(parts) => sip008_of_parts(parts),
        None => Err(SIP008ParseError::InvalidUrl),
    }
}

fn owned(text: Option<&String>) -> (r: Option<String>)
    ensures
        match text {
            Some(t) => r matches Some(s) && s@ == t@,
            None => r is None,
        },
{
    match text {
        Some(t) => Some(t.clone()),
        None => None,
    }
}

impl SIP008Config {
    /// Accepts a scheme that starts with `ssconf`.
    pub fn validate_protocol(scheme: &str) -> (r: Result<(), SIP008ParseError>)
        ensures
            r == if ssconf_scheme(scheme@) {
                Ok::<(), SIP008ParseError>(())
            } else {
                Err::<(), SIP008ParseError>(SIP008ParseError::InvalidProtocol)
            },
    {
        let v = chars_of(scheme);
        if v.len() >= 6 && v[0] == 's' && v[1] == 's' && v[2] == 'c' && v[3] == 'o' && v[4] == 'n'
            && v[5] == 'f' {
            assert(v@.take(6) =~= seq!['s', 's', 'c', 'o', 'n', 'f']);
            Ok(())
        } else {
            proof {
                if v@.len() >= 6 {
                    let p = v@.take(6);
                    assert(p[0] == v@[0] && p[1] == v@[1] && p[2] == v@[2] && p[3] == v@[3]
                        && p[4] == v@[4] && p[5] == v@[5]);
                }
            }
            Err(SIP008ParseError::InvalidProtocol)
        }
    }

    /// The configuration that the components of a URI and the pairs of its
    /// fragment give.
    pub fn from_parts(parts: &UriParts, pairs: &Vec<(String, String)>) -> (r: Result<
        SIP008Config,
        SIP008ParseError,
    >)
        ensures
            sip008_view(r) == sip008_with(parts@, crate::codec::pairs_view(pairs@)),
    {
        match Self::validate_protocol(parts.scheme.as_str()) {
            Err(e) => {
                return Err(e);
            },
            Ok(_) => {},
        }
        let params = Extra::from_pairs(pairs);
        let host = match &parts.host {
            None => {
                return Err(SIP008ParseError::InvalidUrl);
            },
            Some(host) => host,
        };
        let port: u16 = match parts.port {
            Some(p) => p,
            None => 443,
        };
        let mut location = String::new();
        location.append("https://");
        location.append(host.as_str());
        location.push(':');
        push_decimal(&mut location, port);
        location.append(parts.path.as_str());
        proof {
            reveal_strlit("https://");
            reveal_strlit("certFp");
            reveal_strlit("httpMethod");
            assert("https://"@ =~= seq!['h', 't', 't', 'p', 's', ':', '/', '/']);
            assert("certFp"@ =~= cert_key());
            assert("httpMethod"@ =~= method_key());
            assert(location@ =~= location_text(host@, port, parts.path@));
        }
        Ok(
            SIP008Config {
                location,
                cert_finger_print: owned(params.get("certFp")),
                http_method: owned(params.get("httpMethod")),
            },
        )
    }

    /// Parses an `ssconf` URI.
    pub fn parse(input: &str) -> (r: Result<SIP008Config, SIP008ParseError>)
        ensures
            sip008_view(r) == sip008_outcome(input@),
    {
        let parts = match UriParts::parse(input) {
            None => {
                return Err(SIP008ParseError::InvalidUrl);
            },
            Some(parts) => parts,
        };
        let pairs = match &parts.fragment {
            Some(f) => form_decode(f.as_str()),
            None => form_decode(""),
        };
        proof {
            reveal_strlit("");
            assert(""@ =~= Seq::<char>::empty());
        }
        Self::from_parts(&parts, &pairs)
    }
}

} // verus!
