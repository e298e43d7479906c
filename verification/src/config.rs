//! The configuration of a proxy server, the errors of its parsers, and
//! what the structured and the older URI form have in common.

use crate::codec::{percent_decode, percent_decoded, percent_encode, percent_encoded, text_view};
use crate::extra::{distinct_keys, Entries, Extra};
use crate::host::{Host, HostView};
use crate::method::Method;
use crate::text::chars_of;
use vstd::prelude::*;
use vstd::string::{StringExecFns, StringSliceAdditionalSpecFns};
use vstd::utf8::encode_utf8;

verus! {

/// Why a text was not accepted as a configuration.
#[derive(Debug, PartialEq, Eq, Structural, Clone, Copy, Hash)]
pub enum SSParseError {
    /// The text is no URI, or the base64 text in it is malformed or holds
    /// no UTF-8.
    InvalidUrl,
    /// The scheme does not start with `ss`.
    InvalidProtocol,
    /// The host is missing or is no host.
    InvalidHost,
    /// The port is missing, is no number or is above 65535.
    InvalidPort,
    /// The method is none of the known tokens.
    InvalidMethod,
    /// No password follows the method.
    InvalidPassword,
}

/// The connection details of one proxy server.
#[derive(Clone, Debug, PartialEq, Eq)]
pub struct SSConfig {
    pub host: Host,
    pub port: u16,
    pub method: Method,
    pub password: String,
    /// A label for people to read.
    pub tag: Option<String>,
    /// Further key/value pairs. Absent rather than empty.
    pub extra: Option<Extra>,
}

/// What an `SSConfig` stands for in contracts.
#[verifier::ext_equal]
pub ghost struct SSConfigView {
    pub host: HostView,
    pub port: u16,
    pub method: Method,
    pub password: Seq<char>,
    pub tag: Option<Seq<char>>,
    pub extra: Option<Entries>,
}

/// The entries of optional metadata.
pub open spec fn extra_view(extra: Option<Extra>) -> Option<Entries> {
    match extra {
        Some(e) => Some(e@),
        None => None,
    }
}

impl View for SSConfig {
    type V = SSConfigView;

    open spec fn view(&self) -> SSConfigView {
        SSConfigView {
            host: self.host@,
            port: self.port,
            method: self.method,
            password: self.password@,
            tag: text_view(self.tag),
            extra: extra_view(self.extra),
        }
    }
}

/// Whether metadata, where present, has an entry and no key twice.
pub open spec fn well_formed(config: SSConfigView) -> bool {
    config.extra matches Some(e) ==> e.len() > 0 && distinct_keys(e)
}

/// What a parser returns, as contracts see it.
pub open spec fn outcome_view(r: Result<SSConfig, SSParseError>) -> Result<
    SSConfigView,
    SSParseError,
> {
    match r {
        Ok(c) => Ok(c@),
        Err(e) => Err(e),
    }
}

/// Whether a scheme is accepted: it starts with `ss`.
pub open spec fn scheme_accepted(scheme: Seq<char>) -> bool {
    scheme.len() >= 2 && scheme[0] == 's' && scheme[1] == 's'
}

/// The tag that a fragment holds: the fragment, percent-decoded.
pub open spec fn tag_of(fragment: Option<Seq<char>>) -> Option<Seq<char>> {
    match fragment {
        Some(f) => Some(percent_decoded(f)),
        None => None,
    }
}

/// The end of a URI that carries the tag: `#` and the tag with every
/// character but ASCII letters and digits percent-encoded. Nothing for an
/// absent or empty tag.
pub open spec fn hash_text(tag: Option<Seq<char>>) -> Seq<char> {
    match tag {
        Some(t) => if t.len() > 0 {
            seq!['#'] + percent_encoded(encode_utf8(t))
        } else {
            Seq::empty()
        },
        None => Seq::empty(),
    }
}

/// The start of every URI that the library writes.
pub open spec fn scheme_prefix() -> Seq<char> {
    seq!['s', 's', ':', '/', '/']
}

impl SSConfig {
    /// Whether the metadata, where present, has an entry and no key twice.
    pub open spec fn wf(&self) -> bool {
        well_formed(self@)
    }

    /// Accepts a scheme that starts with `ss`.
    pub fn validate_protocol(scheme: &str) -> (r: Result<(), SSParseError>)
        ensures
            r == if scheme_accepted(scheme@) {
                Ok::<(), SSParseError>(())
            } else {
                Err::<(), SSParseError>(SSParseError::InvalidProtocol)
            },
    {
        let v = chars_of(scheme);
        if v.len() >= 2 && v[0] == 's' && v[1] == 's' {
            Ok(())
        } else {
            Err(SSParseError::InvalidProtocol)
        }
    }

    /// The tag that a fragment holds.
    pub fn extract_hash(fragment: &Option<String>) -> (r: Option<String>)
        ensures
            text_view(r) == tag_of(text_view(*fragment)),
    {
        match fragment {
            Some(f) => Some(percent_decode(f.as_str())),
            None => None,
        }
    }

    /// The end of a URI that carries the tag.
    pub fn get_hash(tag: &Option<String>) -> (r: String)
        ensures
            r@ == hash_text(text_view(*tag)),
    {
        match tag {
            Some(t) => {
                if t.as_str().is_empty() {
                    String::new()
                } else {
                    let mut r = String::new();
                    r.push('#');
                    let encoded = percent_encode(t.as_str().as_bytes());
                    r.append(encoded.as_str());
                    assert(r@ =~= seq!['#'] + percent_encoded(encode_utf8(t@)));
                    r
                }
            },
            None => String::new(),
        }
    }

    /// Appends `ss://` to `out`.
    pub(crate) fn push_scheme(out: &mut String)
        ensures
            final(out)@ == old(out)@ + scheme_prefix(),
    {
        out.push('s');
        out.push('s');
        out.push(':');
        out.push('/');
        out.push('/');
        assert(out@ =~= old(out)@ + scheme_prefix());
    }
}

} // verus!
