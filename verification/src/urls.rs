//! Origins and hosts, as the `url` crate parses them.

use vstd::prelude::*;
use crate::text::{contains_char, has_suffix, opt_text, push_char, to_chars};

verus! {

/// The host of a URL, or a host that was parsed on its own.
#[derive(Debug)]
pub enum Host {
    /// A domain name, in its ASCII form.
    Domain(String),
    /// An IPv4 address, as its 32 bits.
    Ipv4(u32),
    /// An IPv6 address, as its 128 bits.
    Ipv6(u128),
}

/// The mathematical value of a [`Host`].
pub enum HostView {
    Domain(Seq<char>),
    Ipv4(u32),
    Ipv6(u128),
}

impl View for Host {
    type V = HostView;

    open spec fn view(&self) -> HostView {
        match self {
            Host::Domain(d) => HostView::Domain(d@),
            Host::Ipv4(a) => HostView::Ipv4(*a),
            Host::Ipv6(a) => HostView::Ipv6(*a),
        }
    }
}

/// The view of an optional host.
pub open spec fn opt_host(o: Option<Host>) -> Option<HostView> {
    match o {
        Some(h) => Some(h@),
        None => None,
    }
}

/// What `url::Url::parse` followed by `Url::scheme` yields for `input`: nothing where `input`
/// is no absolute URL, else the scheme of the URL, without the colon behind it.
pub uninterp spec fn url_scheme(input: Seq<char>) -> Option<Seq<char>>;

/// What `url::Host::parse` yields for `input`: nothing where it is no host.
pub uninterp spec fn parsed_host(input: Seq<char>) -> Option<HostView>;

/// What `url::Url::parse` followed by `Url::host` yields for `input`: nothing where `input`
/// is no absolute URL or the URL has no host.
pub uninterp spec fn url_host(input: Seq<char>) -> Option<HostView>;

/// What `url::Url::parse` followed by `Url::host_str` yields for `input`: nothing where `input`
/// is no absolute URL or the URL has no host, else the host of the URL as text.
pub uninterp spec fn url_host_str(input: Seq<char>) -> Option<Seq<char>>;

/// What `url::Url::parse` followed by `Url::port` yields for `input`: nothing where `input` is
/// no absolute URL or the URL names no port, or names the port that its scheme implies.
pub uninterp spec fn url_port(input: Seq<char>) -> Option<u16>;

/// Parses `input` with `url::Url::parse` and hands on a copy of what `Url::host_str` gives for
/// the result. The contract only names the outcome; it claims that the outcome depends on
/// `input` alone.
#[verifier::external_body]
fn host_str_of_url(input: &str) -> (r: Option<String>)
    ensures
        opt_text(r) == url_host_str(input@),
{
    match url::Url::parse(input) {
        Ok(u) => u.host_str().map(|h| h.to_string()),
        Err(_) => None,
    }
}

/// Parses `input` with `url::Url::parse` and hands on what `Url::port` gives for the result.
/// The contract only names the outcome; it claims that the outcome depends on `input` alone.
#[verifier::external_body]
fn port_of_url(input: &str) -> (r: Option<u16>)
    ensures
        r == url_port(input@),
{
    match url::Url::parse(input) {
        Ok(u) => u.port(),
        Err(_) => None,
    }
}

/// Parses `input` with `url::Url::parse` and hands on a copy of what `Url::scheme` gives for
/// the result. The contract only names the outcome; it claims that the outcome depends on
/// `input` alone.
#[verifier::external_body]
fn scheme_of_url(input: &str) -> (r: Option<String>)
    ensures
        opt_text(r) == url_scheme(input@),
{
    match url::Url::parse(input) {
        Ok(u) => Some(u.scheme().to_string()),
        Err(_) => None,
    }
}

/// Parses `input` with `url::Host::parse` and hands the result on as a [`Host`]. The contract
/// only names the outcome; it claims that the outcome depends on `input` alone.
#[verifier::external_body]
pub(crate) fn parse_host(input: &str) -> (r: Option<Host>)
    ensures
        opt_host(r) == parsed_host(input@),
{
    match url::Host::parse(input) {
        Ok(url::Host::Domain(d)) => Some(Host::Domain(d)),
        Ok(url::Host::Ipv4(a)) => Some(Host::Ipv4(u32::from(a))),
        Ok(url::Host::Ipv6(a)) => Some(Host::Ipv6(u128::from(a))),
        Err(_) => None,
    }
}

/// Parses `input` with `url::Url::parse` and hands on what `Url::host` gives for the result.
/// The contract only names the outcome; it claims that the outcome depends on `input` alone.
#[verifier::external_body]
fn host_of_url(input: &str) -> (r: Option<Host>)
    ensures
        opt_host(r) == url_host(input@),
{
    match url::Url::parse(input) {
        Ok(u) => match u.host() {
            Some(url::Host::Domain(d)) => Some(Host::Domain(d.to_string())),
            Some(url::Host::Ipv4(a)) => Some(Host::Ipv4(u32::from(a))),
            Some(url::Host::Ipv6(a)) => Some(Host::Ipv6(u128::from(a))),
            None => None,
        },
        Err(_) => None,
    }
}

/// The origin `origin` where it is fit to be stored, given the origin `again` that it has
/// when it is read as a URL itself: it is not empty, holds no NUL, and is its own origin.
pub open spec fn confirmed_origin(origin: Seq<char>, again: Option<Seq<char>>) -> Option<Seq<char>> {
    if origin.len() > 0 && !origin.contains('\0') && again == Some(origin) {
        Some(origin)
    } else {
        None
    }
}

/// The origin that a URL with the given scheme, host and port has: the scheme, and behind it
/// `://`, the host and, where there is one, a colon and the port; or only a colon where the
/// URL has no host. There is none where there is no scheme, which is to say no URL.
pub open spec fn origin_of_parts(
    scheme: Option<Seq<char>>,
    host: Option<Seq<char>>,
    port: Option<u16>,
) -> Option<Seq<char>> {
    match scheme {
        None => None,
        Some(s) => match host_with_port(host, port) {
            Some(hp) => Some(s + "://"@ + hp),
            None => Some(s + ":"@),
        },
    }
}

/// The origin of the URL `input`, put together from its scheme, its host in ASCII form and
/// the port that it names and that its scheme does not imply; none where `input` is no URL.
pub open spec fn bare_origin(input: Seq<char>) -> Option<Seq<char>> {
    origin_of_parts(url_scheme(input), url_host_str(input), url_port(input))
}

/// The canonical origin of `input`: its origin, provided that this is fit to be stored. Text
/// that has no such origin has no canonical origin.
pub open spec fn canonical_origin(input: Seq<char>) -> Option<Seq<char>> {
    match bare_origin(input) {
        Some(o) => confirmed_origin(o, bare_origin(o)),
        None => None,
    }
}

/// The origin `origin` where it is fit to be stored, given the origin `again` of `origin`
/// itself.
pub fn confirm_origin(origin: String, again: Option<String>) -> (r: Option<String>)
    ensures
        opt_text(r) == confirmed_origin(origin@, opt_text(again)),
{
    if origin.as_str().is_empty() || contains_char(origin.as_str(), '\0') {
        return None;
    }
    match again {
        Some(same) => if same == origin {
            Some(origin)
        } else {
            None
        },
        None => None,
    }
}

/// The origin that a URL with the given scheme, host and port has.
pub fn origin_from_parts(scheme: Option<String>, host: Option<String>, port: Option<u16>) -> (r:
    Option<String>)
    ensures
        opt_text(r) == origin_of_parts(opt_text(scheme), opt_text(host), port),
{
    match scheme {
        None => None,
        Some(s) => {
            let mut out = s;
            match join_host_port(host, port) {
                Some(hp) => {
                    vstd::string::StringExecFns::append(&mut out, "://");
                    vstd::string::StringExecFns::append(&mut out, hp.as_str());
                },
                None => {
                    vstd::string::StringExecFns::append(&mut out, ":");
                },
            }
            Some(out)
        },
    }
}

/// The origin of the URL `input`, if it is one.
pub fn bare_origin_of(input: &str) -> (r: Option<String>)
    ensures
        opt_text(r) == bare_origin(input@),
{
    let scheme = scheme_of_url(input);
    let host = host_str_of_url(input);
    let port = port_of_url(input);
    origin_from_parts(scheme, host, port)
}

/// The canonical origin of `input`, if it has one.
pub fn canonicalize_origin(input: &str) -> (r: Option<String>)
    ensures
        opt_text(r) == canonical_origin(input@),
{
    match bare_origin_of(input) {
        None => None,
        Some(o) => {
            let again = bare_origin_of(o.as_str());
            confirm_origin(o, again)
        },
    }
}

/// Whether the domain `look` is `base` or a subdomain of it.
pub open spec fn domain_within(base: Seq<char>, look: Seq<char>) -> bool {
    look == base || has_suffix(look, seq!['.'] + base)
}

/// Whether a record whose hostname has the host `look` belongs to the base host `base`: a
/// domain belongs to itself and to every domain that it is a subdomain of, an address only to
/// itself, and hosts of different kinds never belong together.
pub open spec fn host_within(base: HostView, look: Option<HostView>) -> bool {
    match (base, look) {
        (HostView::Domain(b), Some(HostView::Domain(l))) => domain_within(b, l),
        (HostView::Ipv4(b), Some(HostView::Ipv4(l))) => b == l,
        (HostView::Ipv6(b), Some(HostView::Ipv6(l))) => b == l,
        _ => false,
    }
}

/// Whether the domain `look` is `base` or ends with a dot followed by `base`.
pub fn is_domain_within(base: &str, look: &str) -> (r: bool)
    ensures
        r == domain_within(base@, look@),
{
    let b = to_chars(base);
    let l = to_chars(look);
    if l.len() < b.len() {
        assert(!has_suffix(look@, seq!['.'] + base@));
        assert(look@.len() != base@.len());
        return false;
    }
    let off: usize = l.len() - b.len();
    let mut i: usize = 0;
    while i < b.len()
        invariant
            i <= b.len(),
            off == l.len() - b.len(),
            b@ == base@,
            l@ == look@,
            forall|k: int| 0 <= k < i ==> l@[off + k] == b@[k],
        decreases b.len() - i,
    {
        if l[off + i] != b[i] {
            proof {
                let tail = seq!['.'] + base@;
                if has_suffix(look@, tail) {
                    assert(look@.subrange(look@.len() - tail.len(), look@.len() as int)[i + 1]
                        == tail[i + 1]);
                }
            }
            return false;
        }
        i += 1;
    }
    let ghost tail = seq!['.'] + base@;
    if off == 0 {
        assert(look@ =~= base@);
        return true;
    }
    assert(look@ != base@);
    if l[off - 1] == '.' {
        assert(look@.subrange(look@.len() - tail.len(), look@.len() as int) =~= tail);
        true
    } else {
        proof {
            if has_suffix(look@, tail) {
                assert(look@.subrange(look@.len() - tail.len(), look@.len() as int)[0] == tail[0]);
            }
        }
        false
    }
}

/// Whether the host `look` belongs to `base`.
pub fn is_host_within(base: &Host, look: &Option<Host>) -> (r: bool)
    ensures
        r == host_within(base@, opt_host(*look)),
{
    match (base, look) {
        (Host::Domain(b), Some(Host::Domain(l))) => is_domain_within(b.as_str(), l.as_str()),
        (Host::Ipv4(b), Some(Host::Ipv4(l))) => *b == *l,
        (Host::Ipv6(b), Some(Host::Ipv6(l))) => *b == *l,
        _ => false,
    }
}

/// Whether the URL `hostname` has a host that belongs to `base`.
pub fn is_within_base(base: &Host, hostname: &str) -> (r: bool)
    ensures
        r == host_within(base@, url_host(hostname@)),
{
    let look = host_of_url(hostname);
    is_host_within(base, &look)
}

/// The decimal digit that stands for `d`.
pub open spec fn digit(d: nat) -> char {
    ((48 + d) as u8) as char
}

/// The number `n`, written in decimal digits.
pub open spec fn decimal(n: nat) -> Seq<char>
    decreases n,
{
    if n < 10 {
        seq![digit(n)]
    } else {
        decimal(n / 10).push(digit(n % 10))
    }
}

/// The host `host`, followed by a colon and the port `port` where there is one; nothing where
/// there is no host.
pub open spec fn host_with_port(host: Option<Seq<char>>, port: Option<u16>) -> Option<Seq<char>> {
    match host {
        Some(h) => Some(
            match port {
                Some(p) => h + seq![':'] + decimal(p as nat),
                None => h,
            },
        ),
        None => None,
    }
}

/// The host of the URL `input`, followed by a colon and its port where it names one that its
/// scheme does not imply; nothing where `input` is no URL with a host.
pub open spec fn host_port(input: Seq<char>) -> Option<Seq<char>> {
    host_with_port(url_host_str(input), url_port(input))
}

/// The number `n`, written in decimal digits.
pub fn decimal_of(n: u16) -> (r: String)
    ensures
        r@ == decimal(n as nat),
    decreases n,
{
    if n < 10 {
        let mut s = String::new();
        push_char(&mut s, (48 + n as u8) as char);
        assert(s@ =~= seq![digit(n as nat)]);
        s
    } else {
        let mut s = decimal_of(n / 10);
        push_char(&mut s, (48 + (n % 10) as u8) as char);
        s
    }
}

/// The host `host`, followed by a colon and the port `port` where there is one.
pub fn join_host_port(host: Option<String>, port: Option<u16>) -> (r: Option<String>)
    ensures
        opt_text(r) == host_with_port(opt_text(host), port),
{
    match host {
        Some(h) => {
            let ghost name = h@;
            let mut out = h;
            if let Some(p) = port {
                push_char(&mut out, ':');
                let digits = decimal_of(p);
                vstd::string::StringExecFns::append(&mut out, digits.as_str());
                assert(out@ =~= name + seq![':'] + decimal(p as nat));
            }
            Some(out)
        },
        None => None,
    }
}

/// The host of the URL `input`, with its port where it names one.
pub fn url_host_port(input: &str) -> (r: Option<String>)
    ensures
        opt_text(r) == host_port(input@),
{
    let host = host_str_of_url(input);
    let port = port_of_url(input);
    join_host_port(host, port)
}

} // verus!
