//! The older URI form: method, password, host and port in one base64 text
//! that stands where a URI has its host.

use crate::codec::{decode_text, decoded_text, encode_text, text_view, unpadded_base64};
use crate::config::{hash_text, outcome_view, scheme_accepted, scheme_prefix, tag_of, SSConfig,
    SSConfigView, SSParseError};
use crate::host::{host_of_text, host_text, Host, HostView};
use crate::method::{lemma_token_has_no_colon, lemma_token_round_trip, Method};
use crate::port::{decimal_text, is_digit, lemma_decimal_text, lemma_port_round_trip, parse_port,
    port_of_text, push_decimal};
use crate::sip002::written_fragment;
use crate::text::{chars_of, find_first, find_last, first_index, last_index, lemma_first_index,
    lemma_first_index_is, lemma_last_index_is, string_of_range, trim_end, trimmed_end};
use crate::uri::{uri_parts, UriParts, UriPartsView};
use vstd::prelude::*;
use vstd::string::StringExecFns;

verus! {

/// What the decoded text of an older URI holds. The host is still text.
#[derive(Clone, Debug, PartialEq, Eq)]
pub struct LegacyFields {
    pub method: Method,
    pub password: String,
    pub host: String,
    pub port: u16,
}

/// What a `LegacyFields` stands for in contracts.
#[verifier::ext_equal]
pub ghost struct LegacyFieldsView {
    pub method: Method,
    pub password: Seq<char>,
    pub host: Seq<char>,
    pub port: u16,
}

impl View for LegacyFields {
    type V = LegacyFieldsView;

    open spec fn view(&self) -> LegacyFieldsView {
        LegacyFieldsView {
            method: self.method,
            password: self.password@,
            host: self.host@,
            port: self.port,
        }
    }
}

/// What splitting a payload returns, as contracts see it.
pub open spec fn fields_view(r: Result<LegacyFields, SSParseError>) -> Result<
    LegacyFieldsView,
    SSParseError,
> {
    match r {
        Ok(f) => Ok(f@),
        Err(e) => Err(e),
    }
}

/// The four fields of a payload `method:password@host:port`, once the `=`
/// at its end are left out. The method ends at the first colon; the
/// password runs to the last `@` and may itself hold `@` and colons; the
/// port starts behind the last colon.
pub open spec fn legacy_fields(payload: Seq<char>) -> Result<LegacyFieldsView, SSParseError> {
    let text = trim_end(payload, '=');
    match first_index(text, ':') {
        None => Err(SSParseError::InvalidUrl),
        Some(i) => match Method::of_token(text.take(i)) {
            None => Err(SSParseError::InvalidMethod),
            Some(method) => {
                let rest = text.skip(i + 1);
                match last_index(rest, '@') {
                    None => Err(SSParseError::InvalidUrl),
                    Some(j) => {
                        let server = rest.skip(j + 1);
                        match last_index(server, ':') {
                            None => Err(SSParseError::InvalidUrl),
                            Some(k) => match port_of_text(server.skip(k + 1)) {
                                None => Err(SSParseError::InvalidPort),
                                Some(port) => Ok(
                                    LegacyFieldsView {
                                        method,
                                        password: rest.take(j),
                                        host: server.take(k),
                                        port,
                                    },
                                ),
                            },
                        }
                    },
                }
            },
        },
    }
}

/// The configuration that the components of a URI give, taken together
/// with the payload that its host position decodes to, the host that the
/// host text of the payload stands for, and the tag of the fragment. The
/// checks are made in this order: scheme, payload, method, port, host.
pub open spec fn legacy_with(
    parts: UriPartsView,
    payload: Option<Seq<char>>,
    host: Option<HostView>,
    tag: Option<Seq<char>>,
) -> Result<SSConfigView, SSParseError> {
    if !scheme_accepted(parts.scheme) {
        Err(SSParseError::InvalidProtocol)
    } else if parts.host is None {
        Err(SSParseError::InvalidUrl)
    } else {
        match payload {
            None => Err(SSParseError::InvalidUrl),
            Some(text) => match legacy_fields(text) {
                Err(e) => Err(e),
                Ok(fields) => match host {
                    None => Err(SSParseError::InvalidHost),
                    Some(h) => Ok(
                        SSConfigView {
                            host: h,
                            port: fields.port,
                            method: fields.method,
                            password: fields.password,
                            tag,
                            extra: None,
                        },
                    ),
                },
            },
        }
    }
}

/// The payload that the host position of a URI decodes to.
pub open spec fn payload_of_parts(parts: UriPartsView) -> Option<Seq<char>> {
    match parts.host {
        Some(encoded) => decoded_text(encoded),
        None => None,
    }
}

/// The host that the host text of a payload stands for.
pub open spec fn host_of_payload(payload: Option<Seq<char>>) -> Option<HostView> {
    match payload {
        Some(text) => match legacy_fields(text) {
            Ok(fields) => host_of_text(fields.host),
            Err(_) => None,
        },
        None => None,
    }
}

/// The configuration that the components of an older URI give.
pub open spec fn legacy_of_parts(parts: UriPartsView) -> Result<SSConfigView, SSParseError> {
    legacy_with(
        parts,
        payload_of_parts(parts),
        host_of_payload(payload_of_parts(parts)),
        tag_of(parts.fragment),
    )
}

/// What parsing a text as an older URI gives.
pub open spec fn legacy_outcome(text: Seq<char>) -> Result<SSConfigView, SSParseError> {
    match uri_parts(text) {
        Some(parts) => legacy_of_parts(parts),
        None => Err(SSParseError::InvalidUrl),
    }
}

/// The payload of a configuration: `method:password@host:port`.
pub open spec fn legacy_payload(
    method: Method,
    password: Seq<char>,
    host: Seq<char>,
    port: u16,
) -> Seq<char> {
    method.token() + seq![':'] + password + seq!['@'] + host + seq![':'] + decimal_text(
        port as nat,
    )
}

/// The older URI of a configuration. Metadata is not written.
pub open spec fn legacy_text(config: SSConfigView) -> Seq<char> {
    scheme_prefix() + unpadded_base64(
        legacy_payload(config.method, config.password, host_text(config.host), config.port),
    ) + hash_text(config.tag)
}

/// The payload that is written for four fields splits into those fields,
/// where the host text holds no `@`.
pub proof fn lemma_legacy_payload_round_trip(
    method: Method,
    password: Seq<char>,
    host: Seq<char>,
    port: u16,
)
    requires
        first_index(host, '@') is None,
    ensures
        legacy_fields(legacy_payload(method, password, host, port)) == Ok::<
            LegacyFieldsView,
            SSParseError,
        >(LegacyFieldsView { method, password, host, port }),
{
    let payload = legacy_payload(method, password, host, port);
    let digits = decimal_text(port as nat);
    let n = method.token().len() as int;
    lemma_decimal_text(port as nat);
    lemma_port_round_trip(port);
    lemma_token_has_no_colon(method);
    lemma_first_index(host, '@');
    // The payload ends in a digit, so trimming takes nothing off.
    assert(payload.last() == digits.last());
    assert(is_digit(digits[digits.len() - 1]));
    assert(trim_end(payload, '=') == payload);
    // The method ends at the first colon.
    lemma_first_index_is(payload, ':', n);
    assert(payload.take(n) =~= method.token());
    lemma_token_round_trip(method, payload.take(n));
    // The password ends at the last `@`.
    let rest = payload.skip(n + 1);
    let j = password.len() as int;
    assert(rest =~= password + seq!['@'] + host + seq![':'] + digits);
    assert forall|m: int| j < m < rest.len() implies rest[m] != '@' by {
        if m <= j + host.len() {
            assert(rest[m] == host[m - j - 1]);
        } else if m > j + host.len() + 1 {
            assert(rest[m] == digits[m - j - host.len() - 2]);
            assert(is_digit(digits[m - j - host.len() - 2]));
        }
    }
    lemma_last_index_is(rest, '@', j);
    assert(rest.take(j) =~= password);
    // The port starts behind the last colon.
    let server = rest.skip(j + 1);
    let k = host.len() as int;
    assert(server =~= host + seq![':'] + digits);
    assert forall|m: int| k < m < server.len() implies server[m] != ':' by {
        assert(server[m] == digits[m - k - 1]);
        assert(is_digit(digits[m - k - 1]));
    }
    lemma_last_index_is(server, ':', k);
    assert(server.take(k) =~= host);
    assert(server.skip(k + 1) =~= digits);
}

/// Whether the older URI of a configuration is read as it was written: it
/// is split into the scheme `ss`, the base64 text in the host position and
/// the fragment that were written; the base64 text decodes to the payload
/// that was encoded; the host text holds no `@` and stands for the host;
/// and the fragment decodes to the tag.
pub open spec fn legacy_reads_back(config: SSConfigView) -> bool {
    let text = legacy_text(config);
    let payload = legacy_payload(
        config.method,
        config.password,
        host_text(config.host),
        config.port,
    );
    &&& uri_parts(text) matches Some(parts) && {
        &&& parts.scheme == seq!['s', 's']
        &&& parts.host == Some(unpadded_base64(payload))
        &&& parts.fragment == written_fragment(config.tag)
    }
    &&& decoded_text(unpadded_base64(payload)) == Some(payload)
    &&& first_index(host_text(config.host), '@') is None
    &&& host_of_text(host_text(config.host)) == Some(config.host)
    &&& tag_of(written_fragment(config.tag)) == config.tag
}

/// Parsing the older URI of a configuration gives the configuration back,
/// where the URI is read as it was written. This is stated of
/// configurations without metadata, which this form does not write, and
/// with a tag that is not the empty text, which is written as no tag.
pub proof fn lemma_legacy_round_trip(config: SSConfigView)
    requires
        config.extra is None,
        config.tag != Some(Seq::<char>::empty()),
    ensures
        legacy_reads_back(config) ==> legacy_outcome(legacy_text(config)) == Ok::<
            SSConfigView,
            SSParseError,
        >(config),
{
    if legacy_reads_back(config) {
        lemma_legacy_payload_round_trip(
            config.method,
            config.password,
            host_text(config.host),
            config.port,
        );
    }
}

impl SSConfig {
    /// The four fields that the decoded payload of an older URI holds.
    pub fn split_legacy_payload(payload: &str) -> (r: Result<LegacyFields, SSParseError>)
        ensures
            fields_view(r) == legacy_fields(payload@),
    {
        let v = chars_of(payload);
        let n: usize = trimmed_end(&v, 0, v.len(), '=');
        let ghost text = v@.subrange(0, n as int);
        assert(v@.subrange(0, v@.len() as int) =~= v@);
        let i: usize = match find_first(&v, 0, n, ':') {
            None => {
                return Err(SSParseError::InvalidUrl);
            },
            Some(i) => i,
        };
        let token = string_of_range(&v, 0, i);
        assert(token@ =~= text.take(i as int));
        let method = match Method::parse(token.as_str()) {
            Err(_) => {
                return Err(SSParseError::InvalidMethod);
            },
            Ok(m) => m,
        };
        let ghost rest = text.skip(i + 1);
        assert(rest =~= v@.subrange(i + 1, n as int));
        let at: usize = match find_last(&v, i + 1, n, '@') {
            None => {
                return Err(SSParseError::InvalidUrl);
            },
            Some(at) => at,
        };
        let ghost server = rest.skip(at - i);
        assert(server =~= v@.subrange(at + 1, n as int));
        let colon: usize = match find_last(&v, at + 1, n, ':') {
            None => {
                return Err(SSParseError::InvalidUrl);
            },
            Some(colon) => colon,
        };
        assert(server.skip(colon - at) =~= v@.subrange(colon + 1, n as int));
        let port = match parse_port(&v, colon + 1, n) {
            None => {
                return Err(SSParseError::InvalidPort);
            },
            Some(p) => p,
        };
        let password = string_of_range(&v, i + 1, at);
        let host = string_of_range(&v, at + 1, colon);
        assert(password@ =~= rest.take(at - i - 1));
        assert(host@ =~= server.take(colon - at - 1));
        Ok(LegacyFields { method, password, host, port })
    }

    /// Reads the components of an older URI.
    pub fn legacy_from_parts(parts: &UriParts) -> (r: Result<SSConfig, SSParseError>)
        ensures
            outcome_view(r) == legacy_of_parts(parts@),
            r matches Ok(c) ==> c.wf(),
    {
        match Self::validate_protocol(parts.scheme.as_str()) {
            Err(e) => {
                return Err(e);
            },
            Ok(_) => {},
        }
        let encoded = match &parts.host {
            None => {
                return Err(SSParseError::InvalidUrl);
            },
            Some(encoded) => encoded,
        };
        let payload = match decode_text(encoded.as_str()) {
            None => {
                return Err(SSParseError::InvalidUrl);
            },
            Some(payload) => payload,
        };
        let fields = match Self::split_legacy_payload(payload.as_str()) {
            Err(e) => {
                return Err(e);
            },
            Ok(fields) => fields,
        };
        let host = match Host::parse(fields.host.as_str()) {
            None => {
                return Err(SSParseError::InvalidHost);
            },
            Some(host) => host,
        };
        Ok(
            SSConfig {
                host,
                port: fields.port,
                method: fields.method,
                password: fields.password,
                tag: Self::extract_hash(&parts.fragment),
                extra: None,
            },
        )
    }

    /// Parses an older URI.
    pub fn parse_legacy_base64(s: &str) -> (r: Result<SSConfig, SSParseError>)
        ensures
            outcome_view(r) == legacy_outcome(s@),
            r matches Ok(c) ==> c.wf(),
    {
        match UriParts::parse(s) {
            Some(parts) => Self::legacy_from_parts(&parts),
            None => Err(SSParseError::InvalidUrl),
        }
    }

    /// The older URI of this configuration. Metadata is not written.
    pub fn to_legacy_base64_encoded(&self) -> (r: String)
        ensures
            r@ == legacy_text(self@),
    {
        let hash = Self::get_hash(&self.tag);
        let host = self.host.to_text();
        let mut payload = String::new();
        payload.append(self.method.as_str());
        payload.push(':');
        payload.append(self.password.as_str());
        payload.push('@');
        payload.append(host.as_str());
        payload.push(':');
        push_decimal(&mut payload, self.port);
        assert(payload@ =~= legacy_payload(
            self.method,
            self.password@,
            host_text(self.host@),
            self.port,
        ));
        let encoded = encode_text(payload.as_str());
        let mut out = String::new();
        Self::push_scheme(&mut out);
        out.append(encoded.as_str());
        out.append(hash.as_str());
        assert(out@ =~= legacy_text(self@));
        out
    }
}

} // verus!
