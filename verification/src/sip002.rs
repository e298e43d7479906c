//! The structured URI form: base64 user information, then host, port,
//! query and fragment.

use crate::codec::{decode_text, decoded_text, encode_text, form_decode, form_encode, form_pairs,
    form_text, percent_encoded, unpadded_base64};
use crate::config::{hash_text, outcome_view, scheme_accepted, scheme_prefix, tag_of, SSConfig,
    SSConfigView, SSParseError};
use crate::extra::{collected, Entries, Extra};
use crate::host::{host_of_text, host_text, Host, HostView};
use crate::method::{lemma_token_has_no_colon, lemma_token_round_trip, Method};
use crate::padding::{lemma_padding_removed, padding, remove_unsafe_padding, first_pad,
    without_unsafe_padding};
use crate::port::{decimal_text, push_decimal};
use crate::text::{chars_of, find_first, first_index, lemma_first_index_is, string_of_range};
use crate::uri::{uri_parts, UriParts, UriPartsView};
use vstd::prelude::*;
use vstd::string::StringExecFns;
use vstd::utf8::encode_utf8;

verus! {

/// The method and the password that a user-information text holds: the
/// method's token up to the first colon, the password behind it. A text
/// without a colon is all token.
pub open spec fn user_info_fields(text: Seq<char>) -> Result<(Method, Seq<char>), SSParseError> {
    let token = match first_index(text, ':') {
        Some(i) => text.take(i),
        None => text,
    };
    match Method::of_token(token) {
        None => Err(SSParseError::InvalidMethod),
        Some(method) => match first_index(text, ':') {
            Some(i) => Ok((method, text.skip(i + 1))),
            None => Err(SSParseError::InvalidPassword),
        },
    }
}

/// The method and the password of decoded user information; what could not
/// be decoded is no URI.
pub open spec fn credentials(user_info: Option<Seq<char>>) -> Result<
    (Method, Seq<char>),
    SSParseError,
> {
    match user_info {
        Some(text) => user_info_fields(text),
        None => Err(SSParseError::InvalidUrl),
    }
}

/// Metadata that is absent rather than empty.
pub open spec fn present(entries: Entries) -> Option<Entries> {
    if entries.len() == 0 {
        None
    } else {
        Some(entries)
    }
}

/// The configuration that the components of a URI give, taken together
/// with what was read from three of them: the host that the host text
/// stands for, the text that the user name decodes to, the pairs of the
/// query and the tag of the fragment. The checks are made in this order:
/// scheme, host, port, method and password.
pub open spec fn sip002_with(
    parts: UriPartsView,
    host: Option<HostView>,
    user_info: Option<Seq<char>>,
    pairs: Entries,
    tag: Option<Seq<char>>,
) -> Result<SSConfigView, SSParseError> {
    if !scheme_accepted(parts.scheme) {
        Err(SSParseError::InvalidProtocol)
    } else if parts.host is None {
        Err(SSParseError::InvalidHost)
    } else if host is None {
        Err(SSParseError::InvalidUrl)
    } else if parts.port is None {
        Err(SSParseError::InvalidPort)
    } else {
        match credentials(user_info) {
            Err(e) => Err(e),
            Ok((method, password)) => Ok(
                SSConfigView {
                    host: host->0,
                    port: parts.port->0,
                    method,
                    password,
                    tag,
                    extra: present(collected(pairs)),
                },
            ),
        }
    }
}

/// The host that the host text of a URI stands for.
pub open spec fn host_of_parts(parts: UriPartsView) -> Option<HostView> {
    match parts.host {
        Some(text) => host_of_text(text),
        None => None,
    }
}

/// The query of a URI, empty where it has none.
pub open spec fn query_of_parts(parts: UriPartsView) -> Seq<char> {
    match parts.query {
        Some(q) => q,
        None => Seq::empty(),
    }
}

/// The configuration that the components of a structured URI give.
pub open spec fn sip002_of_parts(parts: UriPartsView) -> Result<SSConfigView, SSParseError> {
    sip002_with(
        parts,
        host_of_parts(parts),
        decoded_text(parts.username),
        form_pairs(query_of_parts(parts)),
        tag_of(parts.fragment),
    )
}

/// What parsing a text as a structured URI gives: padding in front of `@`
/// is removed, the text is split as a URI, and the components are read.
pub open spec fn sip002_outcome(text: Seq<char>) -> Result<SSConfigView, SSParseError> {
    match uri_parts(without_unsafe_padding(text)) {
        Some(parts) => sip002_of_parts(parts),
        None => Err(SSParseError::InvalidUrl),
    }
}

/// The text of the user information before it is encoded.
pub open spec fn user_info_text(method: Method, password: Seq<char>) -> Seq<char> {
    method.token() + seq![':'] + password
}

/// The query of a structured URI: the metadata, form-encoded.
pub open spec fn query_text(extra: Option<Entries>) -> Seq<char> {
    match extra {
        Some(e) => form_text(e),
        None => Seq::empty(),
    }
}

/// The structured URI of a configuration.
pub open spec fn sip002_text(config: SSConfigView) -> Seq<char> {
    scheme_prefix() + unpadded_base64(user_info_text(config.method, config.password)) + seq!['@']
        + host_text(config.host) + seq![':'] + decimal_text(config.port as nat) + seq!['/']
        + query_text(config.extra) + hash_text(config.tag)
}

/// What `split_user_info` and `extract_method_and_password` return, as
/// contracts see it.
pub open spec fn credentials_view(r: Result<(Method, String), SSParseError>) -> Result<
    (Method, Seq<char>),
    SSParseError,
> {
    match r {
        Ok((method, password)) => Ok((method, password@)),
        Err(e) => Err(e),
    }
}

/// The user information that is written for a method and a password reads
/// back as that method and that password.
pub proof fn lemma_user_info_round_trip(method: Method, password: Seq<char>)
    ensures
        user_info_fields(user_info_text(method, password)) == Ok::<
            (Method, Seq<char>),
            SSParseError,
        >((method, password)),
{
    let text = user_info_text(method, password);
    let n = method.token().len() as int;
    lemma_token_has_no_colon(method);
    lemma_token_round_trip(method, text.take(n));
    lemma_first_index_is(text, ':', n);
    assert(text.take(n) =~= method.token());
    assert(text.skip(n + 1) =~= password);
}

/// The fragment that is written for a tag: the tag, percent-encoded.
/// None for an absent or empty tag.
pub open spec fn written_fragment(tag: Option<Seq<char>>) -> Option<Seq<char>> {
    match tag {
        Some(t) => if t.len() > 0 {
            Some(percent_encoded(encode_utf8(t)))
        } else {
            None
        },
        None => None,
    }
}

/// Whether the structured URI of a configuration without metadata is read
/// as it was written: it holds no `=@`; it is split into the scheme `ss`,
/// the user information, the host text, the port and the fragment that
/// were written, and no query; an empty query holds no pair; the host text
/// stands for the host; the user information decodes to the text that was
/// encoded; and the fragment decodes to the tag.
pub open spec fn sip002_reads_back(config: SSConfigView) -> bool {
    let text = sip002_text(config);
    let user_info = user_info_text(config.method, config.password);
    &&& first_pad(text) is None
    &&& uri_parts(text) matches Some(parts) && {
        &&& parts.scheme == seq!['s', 's']
        &&& parts.username == unpadded_base64(user_info)
        &&& parts.host == Some(host_text(config.host))
        &&& parts.port == Some(config.port)
        &&& parts.query is None
        &&& parts.fragment == written_fragment(config.tag)
    }
    &&& form_pairs(Seq::empty()).len() == 0
    &&& host_of_text(host_text(config.host)) == Some(config.host)
    &&& decoded_text(unpadded_base64(user_info)) == Some(user_info)
    &&& tag_of(written_fragment(config.tag)) == config.tag
}

/// Parsing the structured URI of a configuration gives the configuration
/// back, where the URI is read as it was written. This is stated of
/// configurations without metadata, which is written behind the path
/// without a question mark and so read as path, and with a tag that is not
/// the empty text, which is written as no tag.
pub proof fn lemma_sip002_round_trip(config: SSConfigView)
    requires
        config.extra is None,
        config.tag != Some(Seq::<char>::empty()),
    ensures
        sip002_reads_back(config) ==> sip002_outcome(sip002_text(config)) == Ok::<
            SSConfigView,
            SSParseError,
        >(config),
{
    if sip002_reads_back(config) {
        lemma_user_info_round_trip(config.method, config.password);
        let parts = uri_parts(sip002_text(config))->0;
        assert(collected(form_pairs(query_of_parts(parts))) =~= Seq::empty());
    }
}

/// A structured URI with padding in front of its `@` reads as the same URI
/// without the padding: for texts `a` and `b` that hold no `=@` and neither
/// start nor end with `=`.
pub proof fn lemma_padding_tolerance(a: Seq<char>, k: nat, b: Seq<char>)
    requires
        first_pad(a) is None,
        first_pad(b) is None,
        a.len() > 0 ==> a[0] != '=' && a.last() != '=',
        b.len() > 0 ==> b[0] != '=' && b.last() != '=',
    ensures
        sip002_outcome(a + padding(k) + seq!['@'] + b) == sip002_outcome(a + seq!['@'] + b),
{
    lemma_padding_removed(a, k, b);
    lemma_padding_removed(a, 0, b);
    assert(a + padding(0) + seq!['@'] + b =~= a + seq!['@'] + b);
}

impl SSConfig {
    /// The method and the password that a decoded user-information text
    /// holds.
    pub fn split_user_info(text: &str) -> (r: Result<(Method, String), SSParseError>)
        ensures
            credentials_view(r) == user_info_fields(text@),
    {
        let v = chars_of(text);
        let n: usize = v.len();
        assert(v@.subrange(0, n as int) =~= v@);
        let colon = find_first(&v, 0, n, ':');
        let token_end: usize = match colon {
            Some(i) => i,
            None => n,
        };
        let token = string_of_range(&v, 0, token_end);
        assert(token@ =~= match first_index(v@, ':') {
            Some(i) => v@.take(i),
            None => v@,
        });
        match Method::parse(token.as_str()) {
            Err(_) => Err(SSParseError::InvalidMethod),
            Ok(method) => match colon {
                Some(i) => {
                    let password = string_of_range(&v, i + 1, n);
                    assert(password@ =~= v@.skip(i + 1));
                    Ok((method, password))
                },
                None => Err(SSParseError::InvalidPassword),
            },
        }
    }

    /// The method and the password that the user name of a URI holds: the
    /// user name is decoded from base64 and read as UTF-8, then split.
    pub fn extract_method_and_password(input: &str) -> (r: Result<(Method, String), SSParseError>)
        ensures
            credentials_view(r) == credentials(decoded_text(input@)),
    {
        match decode_text(input) {
            Some(text) => Self::split_user_info(text.as_str()),
            None => Err(SSParseError::InvalidUrl),
        }
    }

    /// The host of a URI. A URI without host has an invalid host; a host
    /// text that is no host makes the URI invalid.
    pub fn extract_host(parts: &UriParts) -> (r: Result<Host, SSParseError>)
        ensures
            match r {
                Ok(h) => parts@.host is Some && host_of_parts(parts@) == Some(h@),
                Err(e) => if parts@.host is None {
                    e == SSParseError::InvalidHost
                } else {
                    e == SSParseError::InvalidUrl && host_of_parts(parts@) is None
                },
            },
    {
        match &parts.host {
            None => Err(SSParseError::InvalidHost),
            Some(text) => match Host::parse(text.as_str()) {
                Some(h) => Ok(h),
                None => Err(SSParseError::InvalidUrl),
            },
        }
    }

    /// The port of a URI.
    pub fn extract_port(parts: &UriParts) -> (r: Result<u16, SSParseError>)
        ensures
            match r {
                Ok(p) => parts@.port == Some(p),
                Err(e) => parts@.port is None && e == SSParseError::InvalidPort,
            },
    {
        match parts.port {
            Some(p) => Ok(p),
            None => Err(SSParseError::InvalidPort),
        }
    }

    /// The metadata that the query of a URI holds: of two pairs with one
    /// key the later stays.
    pub fn extract_query(parts: &UriParts) -> (r: Extra)
        ensures
            r@ == collected(form_pairs(query_of_parts(parts@))),
            r.wf(),
    {
        let pairs = match &parts.query {
            Some(q) => form_decode(q.as_str()),
            None => form_decode(""),
        };
        proof {
            reveal_strlit("");
            assert(""@ =~= Seq::<char>::empty());
        }
        Extra::from_pairs(&pairs)
    }

    /// Reads the components of a structured URI.
    pub fn sip002_from_parts(parts: &UriParts) -> (r: Result<SSConfig, SSParseError>)
        ensures
            outcome_view(r) == sip002_of_parts(parts@),
            r matches Ok(c) ==> c.wf(),
    {
        match Self::validate_protocol(parts.scheme.as_str()) {
            Err(e) => {
                return Err(e);
            },
            Ok(_) => {},
        }
        let host = match Self::extract_host(parts) {
            Err(e) => {
                return Err(e);
            },
            Ok(h) => h,
        };
        let port = match Self::extract_port(parts) {
            Err(e) => {
                return Err(e);
            },
            Ok(p) => p,
        };
        let query = Self::extract_query(parts);
        let (method, password) = match Self::extract_method_and_password(parts.username.as_str()) {
            Err(e) => {
                return Err(e);
            },
            Ok(pair) => pair,
        };
        let tag = Self::extract_hash(&parts.fragment);
        let extra = if query.is_empty() {
            None
        } else {
            Some(query)
        };
        Ok(SSConfig { host, port, method, password, tag, extra })
    }

    /// Parses a structured URI.
    pub fn parse_sip002(s: &str) -> (r: Result<SSConfig, SSParseError>)
        ensures
            outcome_view(r) == sip002_outcome(s@),
            r matches Ok(c) ==> c.wf(),
    {
        let normalized = remove_unsafe_padding(s);
        match UriParts::parse(normalized.as_str()) {
            Some(parts) => Self::sip002_from_parts(&parts),
            None => Err(SSParseError::InvalidUrl),
        }
    }

    /// The user information of a structured URI: `method:password` in
    /// base64 without padding.
    pub fn encode_user_info(method: &Method, password: &str) -> (r: String)
        ensures
            r@ == unpadded_base64(user_info_text(*method, password@)),
    {
        let mut text = String::new();
        text.append(method.as_str());
        text.push(':');
        text.append(password);
        assert(text@ =~= user_info_text(*method, password@));
        encode_text(text.as_str())
    }

    /// The query of a structured URI.
    pub fn encode_query(extra: &Extra) -> (r: String)
        ensures
            r@ == form_text(extra@),
    {
        form_encode(extra.pairs())
    }

    /// The host as it stands in a URI.
    pub fn get_uri_formatted_host(host: &Host) -> (r: String)
        ensures
            r@ == host_text(host@),
    {
        host.to_text()
    }

    /// The structured URI of this configuration.
    pub fn to_sip002(&self) -> (r: String)
        ensures
            r@ == sip002_text(self@),
    {
        let user_info = Self::encode_user_info(&self.method, self.password.as_str());
        let query = match &self.extra {
            Some(q) => Self::encode_query(q),
            None => String::new(),
        };
        let hash = Self::get_hash(&self.tag);
        let host = Self::get_uri_formatted_host(&self.host);
        let mut out = String::new();
        Self::push_scheme(&mut out);
        out.append(user_info.as_str());
        out.push('@');
        out.append(host.as_str());
        out.push(':');
        push_decimal(&mut out, self.port);
        out.push('/');
        out.append(query.as_str());
        out.append(hash.as_str());
        assert(out@ =~= sip002_text(self@));
        out
    }
}

} // verus!
