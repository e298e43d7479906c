//! The host of a proxy server: a domain name or an IP address.

use crate::port::decimal_text;
use vstd::prelude::*;

verus! {

/// The host of a server. An IPv4 address is held as its 32 bits and an
/// IPv6 address as its 128 bits, the first octet in the highest bits.
#[derive(Clone, Debug, PartialEq, Eq, Hash)]
pub enum Host {
    Domain(String),
    Ipv4(u32),
    Ipv6(u128),
}

/// What a `Host` stands for in contracts.
#[verifier::ext_equal]
pub ghost enum HostView {
    Domain(Seq<char>),
    Ipv4(u32),
    Ipv6(u128),
}

impl View for Host {
    type V = HostView;

    open spec fn view(&self) -> HostView {
        match self {
            Host::Domain(d) => HostView::Domain(d@),
            Host::Ipv4(a) => HostView::Ipv4(*a),
            Host::Ipv6(a) => HostView::Ipv6(*a),
        }
    }
}

/// The error type of the `url` crate's parsers.
#[verifier::external_type_specification]
#[verifier::external_body]
pub struct ExUrlParseError(url::ParseError);

/// The host that `url::Host::parse` reads from a text, where it accepts
/// the text.
pub uninterp spec fn host_of_text(text: Seq<char>) -> Option<HostView>;

/// The text that the `url` crate writes for the 128 bits of an IPv6
/// address: groups of lower-case hexadecimal digits between colons, the
/// longest run of zero groups shortened to `::`.
pub uninterp spec fn ipv6_text(bits: u128) -> Seq<char>;

/// The four octets of an IPv4 address in decimal, with dots between them.
pub open spec fn dotted_quad(bits: u32) -> Seq<char> {
    decimal_text((bits / 0x100_0000) as nat) + seq!['.'] + decimal_text(
        (bits / 0x1_0000 % 0x100) as nat,
    ) + seq!['.'] + decimal_text((bits / 0x100 % 0x100) as nat) + seq!['.'] + decimal_text(
        (bits % 0x100) as nat,
    )
}

/// The text of a host as it stands in a URI: a domain as it is, an IPv4
/// address as dotted decimals, an IPv6 address between brackets.
pub open spec fn host_text(host: HostView) -> Seq<char> {
    match host {
        HostView::Domain(d) => d,
        HostView::Ipv4(a) => dotted_quad(a),
        HostView::Ipv6(a) => seq!['['] + ipv6_text(a) + seq![']'],
    }
}

/// Calls `url::Host::parse` and carries the variant over. The call depends
/// on its argument alone, so its result is `host_of_text` of the text.
#[verifier::external_body]
fn url_host_parse(text: &str) -> (r: Result<Host, url::ParseError>)
    ensures
        match r {
            Ok(h) => host_of_text(text@) == Some(h@),
            Err(_) => host_of_text(text@) is None,
        },
{
    match url::Host::parse(text)? {
        url::Host::Domain(d) => Ok(Host::Domain(d)),
        url::Host::Ipv4(a) => Ok(Host::Ipv4(a.into())),
        url::Host::Ipv6(a) => Ok(Host::Ipv6(a.into())),
    }
}

/// Calls `to_string` on the `url::Host` with the same variant and value,
/// that is the crate's `Display` for hosts. It writes a domain unchanged,
/// an IPv4 address as the standard library does, in dotted decimals, and an
/// IPv6 address between brackets in the crate's own short form, which
/// depends on the address alone.
#[verifier::external_body]
fn url_host_to_string(host: &Host) -> (r: String)
    ensures
        match host@ {
            HostView::Domain(d) => r@ == d,
            HostView::Ipv4(a) => r@ == dotted_quad(a),
            HostView::Ipv6(a) => r@ == seq!['['] + ipv6_text(a) + seq![']'],
        },
{
    match host {
        Host::Domain(d) => url::Host::Domain(d.as_str()).to_string(),
        Host::Ipv4(a) => url::Host::<&str>::Ipv4((*a).into()).to_string(),
        Host::Ipv6(a) => url::Host::<&str>::Ipv6((*a).into()).to_string(),
    }
}

impl Host {
    /// Reads a host from a text: an IPv6 address between brackets, an IPv4
    /// address, or a domain name. `None` where the text is none of them.
    pub fn parse(text: &str) -> (r: Option<Host>)
        ensures
            match r {
                Some(h) => host_of_text(text@) == Some(h@),
                None => host_of_text(text@) is None,
            },
    {
        match url_host_parse(text) {
            Ok(h) => Some(h),
            Err(_) => None,
        }
    }

    /// The text of this host as it stands in a URI.
    pub fn to_text(&self) -> (r: String)
        ensures
            r@ == host_text(self@),
    {
        url_host_to_string(self)
    }
}

} // verus!
