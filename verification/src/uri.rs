//! Reading and rewriting the URIs an IPP conversation is addressed by.

use vstd::prelude::*;
use crate::text::{
    all_digits, chars_of, digits_value, eq_ignore_case, eq_ignore_case_vec, eq_vec, is_digit,
    is_digit_exec, lower, slice_of, split_once, split_once_exec, starts_with, starts_with_exec,
    str_eq_ignore_case, to_lower,
};
use crate::weburl::{
    opt_string_view, parse_url, parsed_url, set_url_fragment, set_url_host, set_url_path,
    set_url_port, set_url_query, set_url_scheme, url_with_fragment, url_with_host, url_with_path,
    url_with_port, url_with_query, url_with_scheme, UrlParts, UrlView,
};
use vstd::string::StringExecFns;

verus! {

/// The schemes an IPP conversation can be addressed by.
#[derive(Clone, Copy, Debug, PartialEq, Eq, Structural)]
pub enum NetworkScheme {
    Ipp,
    Ipps,
    Http,
    Https,
}

/// Which scheme a URL scheme names, compared without ASCII case.
pub open spec fn scheme_named(s: Seq<char>) -> Option<NetworkScheme> {
    if eq_ignore_case(s, seq!['i', 'p', 'p']) {
        Some(NetworkScheme::Ipp)
    } else if eq_ignore_case(s, seq!['i', 'p', 'p', 's']) {
        Some(NetworkScheme::Ipps)
    } else if eq_ignore_case(s, seq!['h', 't', 't', 'p']) {
        Some(NetworkScheme::Http)
    } else if eq_ignore_case(s, seq!['h', 't', 't', 'p', 's']) {
        Some(NetworkScheme::Https)
    } else {
        None
    }
}

impl NetworkScheme {
    /// The port a scheme means when a URI names none.
    pub open spec fn default_port_of(self) -> u16 {
        match self {
            NetworkScheme::Ipp | NetworkScheme::Ipps => 631,
            NetworkScheme::Http => 80,
            NetworkScheme::Https => 443,
        }
    }

    pub open spec fn is_ipp_scheme(self) -> bool {
        self is Ipp || self is Ipps
    }

    /// The web scheme with the same transport security.
    pub open spec fn web_scheme_of(self) -> Seq<char> {
        match self {
            NetworkScheme::Ipp | NetworkScheme::Http => seq!['h', 't', 't', 'p'],
            NetworkScheme::Ipps | NetworkScheme::Https => seq!['h', 't', 't', 'p', 's'],
        }
    }

    /// Reads a scheme name, ignoring ASCII case.
    pub fn parse(scheme: &str) -> (r: Option<Self>)
        ensures
            r == scheme_named(scheme@),
    {
        proof {
            reveal_strlit("ipp");
            reveal_strlit("ipps");
            reveal_strlit("http");
            reveal_strlit("https");
        }
        assert("ipp"@ =~= seq!['i', 'p', 'p']);
        assert("ipps"@ =~= seq!['i', 'p', 'p', 's']);
        assert("http"@ =~= seq!['h', 't', 't', 'p']);
        assert("https"@ =~= seq!['h', 't', 't', 'p', 's']);
        if str_eq_ignore_case(scheme, "ipp") {
            Some(NetworkScheme::Ipp)
        } else if str_eq_ignore_case(scheme, "ipps") {
            Some(NetworkScheme::Ipps)
        } else if str_eq_ignore_case(scheme, "http") {
            Some(NetworkScheme::Http)
        } else if str_eq_ignore_case(scheme, "https") {
            Some(NetworkScheme::Https)
        } else {
            None
        }
    }

    pub fn default_port(self) -> (r: u16)
        ensures
            r == self.default_port_of(),
    {
        match self {
            NetworkScheme::Ipp | NetworkScheme::Ipps => 631,
            NetworkScheme::Http => 80,
            NetworkScheme::Https => 443,
        }
    }

    pub fn is_ipp(self) -> (r: bool)
        ensures
            r == self.is_ipp_scheme(),
    {
        match self {
            NetworkScheme::Ipp | NetworkScheme::Ipps => true,
            _ => false,
        }
    }

    pub fn web_scheme(self) -> (r: &'static str)
        ensures
            r@ == self.web_scheme_of(),
    {
        proof {
            reveal_strlit("http");
            reveal_strlit("https");
        }
        match self {
            NetworkScheme::Ipp | NetworkScheme::Http => "http",
            NetworkScheme::Ipps | NetworkScheme::Https => "https",
        }
    }
}

/// Whether a connection has to use TLS from the start, or only when the peer
/// asks for it.
#[derive(Clone, Copy, Debug, PartialEq, Eq, Structural)]
pub enum EncryptionMode {
    Always,
    IfRequested,
}

/// A URI that names an IPP or web endpoint, with its host and port read out.
pub struct ParsedUri {
    pub uri: UrlParts,
    pub scheme: NetworkScheme,
    /// The host, ASCII lower-cased.
    pub host: String,
    /// The explicit port, or the scheme's default.
    pub port: u16,
}

pub struct ParsedUriView {
    pub uri: UrlView,
    pub scheme: NetworkScheme,
    pub host: Seq<char>,
    pub port: u16,
}

impl View for ParsedUri {
    type V = ParsedUriView;

    open spec fn view(&self) -> ParsedUriView {
        ParsedUriView { uri: self.uri@, scheme: self.scheme, host: self.host@, port: self.port }
    }
}

/// What [`ParsedUri::parse`] makes of a string: the URL parser's reading,
/// kept only for one of the four schemes and a non-empty host.
pub open spec fn parsed_uri(value: Seq<char>) -> Option<ParsedUriView> {
    match parsed_url(value) {
        None => None,
        Some(url) => match scheme_named(url.scheme) {
            None => None,
            Some(scheme) => match url.host {
                None => None,
                Some(host) => if host.len() == 0 {
                    None
                } else {
                    Some(
                        ParsedUriView {
                            uri: url,
                            scheme,
                            host: lower(host),
                            port: match url.port {
                                Some(p) => p,
                                None => scheme.default_port_of(),
                            },
                        },
                    )
                },
            },
        },
    }
}

pub open spec fn opt_parsed_view(p: Option<ParsedUri>) -> Option<ParsedUriView> {
    match p {
        Some(v) => Some(v@),
        None => None,
    }
}

/// The path a request is sent to: the URL's path, or `/` where it is empty.
pub open spec fn resource_of(path: Seq<char>) -> Seq<char> {
    if path.len() == 0 {
        seq!['/']
    } else {
        path
    }
}

pub open spec fn localhost() -> Seq<char> {
    seq!['l', 'o', 'c', 'a', 'l', 'h', 'o', 's', 't']
}

// ---------------------------------------------------------------- loopback

/// One part of a dotted-quad IPv4 address as `Ipv4Addr::from_str` reads it:
/// one to three decimal digits, no leading zero, at most 255.
pub open spec fn valid_octet(p: Seq<char>) -> bool {
    &&& 1 <= p.len() <= 3
    &&& all_digits(p)
    &&& (p.len() == 1 || p[0] != '0')
    &&& digits_value(p) <= 255
}

/// The four parts of a dotted-quad IPv4 address, where `s` is one.
pub open spec fn ipv4_parts(s: Seq<char>) -> Option<(Seq<char>, Seq<char>, Seq<char>, Seq<char>)> {
    match split_once(s, seq!['.']) {
        None => None,
        Some((a, r1)) => match split_once(r1, seq!['.']) {
            None => None,
            Some((b, r2)) => match split_once(r2, seq!['.']) {
                None => None,
                Some((c, d)) => if valid_octet(a) && valid_octet(b) && valid_octet(c)
                    && valid_octet(d) {
                    Some((a, b, c, d))
                } else {
                    None
                },
            },
        },
    }
}

/// An IPv4 address in the loopback block 127.0.0.0/8.
pub open spec fn is_ipv4_loopback(s: Seq<char>) -> bool {
    match ipv4_parts(s) {
        Some((a, _, _, _)) => digits_value(a) == 127,
        None => false,
    }
}

/// The host with the brackets of an IPv6 literal removed.
pub open spec fn unbracketed(host: Seq<char>) -> Seq<char> {
    if host.len() >= 2 && host[0] == '[' && host.last() == ']' {
        host.subrange(1, host.len() - 1)
    } else {
        host
    }
}

/// Whether a host names this machine: `localhost` in any ASCII case, an IPv4
/// address in 127.0.0.0/8, or the IPv6 loopback address. IPv6 addresses reach
/// this check from the URL parser, which writes them in their canonical
/// compressed form, so the loopback address is spelled `::1`.
pub open spec fn is_loopback(host: Seq<char>) -> bool {
    let bare = unbracketed(host);
    eq_ignore_case(bare, localhost()) || is_ipv4_loopback(bare) || bare == seq![':', ':', '1']
}

fn valid_octet_exec(p: &Vec<char>) -> (r: bool)
    ensures
        r == valid_octet(p@),
{
    if p.len() < 1 || p.len() > 3 {
        return false;
    }
    if p.len() > 1 && p[0] == '0' {
        return false;
    }
    let mut i: usize = 0;
    let mut value: u32 = 0;
    while i < p.len()
        invariant
            1 <= p.len() <= 3,
            i <= p.len(),
            all_digits(p@.take(i as int)),
            value == digits_value(p@.take(i as int)),
            i == 0 ==> value == 0,
            i == 1 ==> value < 10,
            i == 2 ==> value < 100,
            i == 3 ==> value < 1000,
        decreases p.len() - i,
    {
        if !is_digit_exec(p[i]) {
            assert(!is_digit(p@[i as int]));
            return false;
        }
        assert(p@.take(i + 1).drop_last() =~= p@.take(i as int));
        value = value * 10 + (p[i] as u32 - '0' as u32);
        i += 1;
    }
    assert(p@.take(p.len() as int) =~= p@);
    value <= 255
}

fn is_ipv4_loopback_exec(s: &Vec<char>) -> (r: bool)
    ensures
        r == is_ipv4_loopback(s@),
{
    let dot = vec!['.'];
    assert(dot@ =~= seq!['.']);
    let (a, r1) = match split_once_exec(s, &dot) {
        Some(parts) => parts,
        None => return false,
    };
    let (b, r2) = match split_once_exec(&r1, &dot) {
        Some(parts) => parts,
        None => return false,
    };
    let (c, d) = match split_once_exec(&r2, &dot) {
        Some(parts) => parts,
        None => return false,
    };
    if !(valid_octet_exec(&a) && valid_octet_exec(&b) && valid_octet_exec(&c) && valid_octet_exec(
        &d,
    )) {
        return false;
    }
    // Three digits at most, so the value fits.
    let mut value: u32 = 0;
    let mut i: usize = 0;
    while i < a.len()
        invariant
            valid_octet(a@),
            i <= a.len(),
            value == digits_value(a@.take(i as int)),
            a.len() <= 3,
            i == 0 ==> value == 0,
            i == 1 ==> value < 10,
            i == 2 ==> value < 100,
            i == 3 ==> value < 1000,
        decreases a.len() - i,
    {
        assert(a@.take(i + 1).drop_last() =~= a@.take(i as int));
        value = value * 10 + (a[i] as u32 - '0' as u32);
        i += 1;
    }
    assert(a@.take(a.len() as int) =~= a@);
    value == 127
}

/// Whether a host names this machine.
pub fn is_loopback_host(host: &str) -> (r: bool)
    ensures
        r == is_loopback(host@),
{
    let h = chars_of(host);
    let bare = if h.len() >= 2 && h[0] == '[' && h[h.len() - 1] == ']' {
        slice_of(&h, 1, h.len() - 1)
    } else {
        h
    };
    let lh = chars_of("localhost");
    proof {
        reveal_strlit("localhost");
        assert(lh@ =~= localhost());
    }
    let v6 = vec![':', ':', '1'];
    assert(v6@ =~= seq![':', ':', '1']);
    eq_ignore_case_vec(&bare, &lh) || is_ipv4_loopback_exec(&bare) || eq_vec(&bare, &v6)
}

// ---------------------------------------------------------------- ParsedUri

/// Whether a parsed URI addresses a resource of the local scheduler: plain
/// IPP on port 631 of this machine, at the root, `/jobs`, `/admin`, or under
/// `/printers/` or `/classes/`.
pub open spec fn is_local_scheduler_of(p: ParsedUriView) -> bool {
    let resource = resource_of(p.uri.path);
    &&& p.scheme is Ipp
    &&& p.port == 631
    &&& is_loopback(p.host)
    &&& (resource == seq!['/'] || resource == seq!['/', 'j', 'o', 'b', 's'] || resource
        == seq!['/', 'a', 'd', 'm', 'i', 'n'] || resource == seq!['/', 'a', 'd', 'm', 'i', 'n', '/']
        || starts_with(resource, seq!['/', 'p', 'r', 'i', 'n', 't', 'e', 'r', 's', '/'])
        || starts_with(resource, seq!['/', 'c', 'l', 'a', 's', 's', 'e', 's', '/']))
}

pub open spec fn localhost_root() -> Seq<char> {
    seq!['h', 't', 't', 'p', ':', '/', '/', 'l', 'o', 'c', 'a', 'l', 'h', 'o', 's', 't', '/']
}

/// The web page of a parsed URI's endpoint: `http://localhost/` with the web
/// scheme of the same security, the URI's host and its explicit port.
pub open spec fn web_page_of(p: ParsedUriView) -> Option<Seq<char>> {
    match parsed_url(localhost_root()) {
        None => None,
        Some(base) => match url_with_scheme(base.serialization, p.scheme.web_scheme_of()) {
            None => None,
            Some(a) => match url_with_host(a, p.uri.host) {
                None => None,
                Some(b) => url_with_port(b, p.uri.port),
            },
        },
    }
}

impl ParsedUri {
    /// Reads an IPP or web URI. `None` where the URL parser refuses it, the
    /// scheme is none of the four, or it names no host.
    pub fn parse(value: &str) -> (r: Option<Self>)
        ensures
            opt_parsed_view(r) == parsed_uri(value@),
    {
        let uri = parse_url(value)?;
        let scheme = NetworkScheme::parse(uri.scheme.as_str())?;
        let host = match &uri.host {
            Some(h) => to_lower(h.as_str()),
            None => return None,
        };
        if host.as_str().is_empty() {
            return None;
        }
        let port = match uri.port {
            Some(p) => p,
            None => scheme.default_port(),
        };
        Some(ParsedUri { uri, scheme, host, port })
    }

    pub fn resource_path(&self) -> (r: String)
        ensures
            r@ == resource_of(self.uri.path@),
    {
        if self.uri.path.as_str().is_empty() {
            proof {
                reveal_strlit("/");
            }
            String::from_str("/")
        } else {
            self.uri.path.clone()
        }
    }

    /// `ipps` asks for TLS from the start; everything else only on request.
    pub fn encryption(&self) -> (r: EncryptionMode)
        ensures
            r == (if self.scheme is Ipps {
                EncryptionMode::Always
            } else {
                EncryptionMode::IfRequested
            }),
    {
        if self.scheme == NetworkScheme::Ipps {
            EncryptionMode::Always
        } else {
            EncryptionMode::IfRequested
        }
    }

    /// Whether the URI addresses a resource of the local scheduler, which has
    /// to be reached over the default connection.
    pub fn is_local_scheduler(&self) -> (r: bool)
        ensures
            r == is_local_scheduler_of(self@),
    {
        let resource = chars_of(self.resource_path().as_str());
        proof {
            reveal_strlit("/");
            reveal_strlit("/jobs");
            reveal_strlit("/admin");
            reveal_strlit("/admin/");
            reveal_strlit("/printers/");
            reveal_strlit("/classes/");
        }
        let slash = chars_of("/");
        let jobs = chars_of("/jobs");
        let admin = chars_of("/admin");
        let admin_slash = chars_of("/admin/");
        let printers = chars_of("/printers/");
        let classes = chars_of("/classes/");
        assert(slash@ =~= seq!['/']);
        assert(jobs@ =~= seq!['/', 'j', 'o', 'b', 's']);
        assert(admin@ =~= seq!['/', 'a', 'd', 'm', 'i', 'n']);
        assert(admin_slash@ =~= seq!['/', 'a', 'd', 'm', 'i', 'n', '/']);
        assert(printers@ =~= seq!['/', 'p', 'r', 'i', 'n', 't', 'e', 'r', 's', '/']);
        assert(classes@ =~= seq!['/', 'c', 'l', 'a', 's', 's', 'e', 's', '/']);
        self.scheme == NetworkScheme::Ipp && self.port == 631 && is_loopback_host(
            self.host.as_str(),
        ) && (eq_vec(&resource, &slash) || eq_vec(&resource, &jobs) || eq_vec(&resource, &admin)
            || eq_vec(&resource, &admin_slash) || starts_with_exec(&resource, &printers)
            || starts_with_exec(&resource, &classes))
    }

    /// The web page of the same endpoint: the web scheme with the same
    /// security, the URI's host and explicit port, and the root path.
    pub fn web_page(&self) -> (r: Option<String>)
        ensures
            opt_string_view(r) == web_page_of(self@),
    {
        proof {
            reveal_strlit("http://localhost/");
        }
        assert("http://localhost/"@ =~= localhost_root());
        let base = parse_url("http://localhost/")?;
        let with_scheme = set_url_scheme(base.serialization.as_str(), self.scheme.web_scheme())?;
        let host = match &self.uri.host {
            Some(h) => Some(h.as_str()),
            None => None,
        };
        let with_host = set_url_host(with_scheme.as_str(), host)?;
        set_url_port(with_host.as_str(), self.uri.port)
    }
}

// ---------------------------------------------------------------- functions

pub open spec fn ipp_uri(value: Seq<char>) -> Option<ParsedUriView> {
    match parsed_uri(value) {
        Some(p) => if p.scheme.is_ipp_scheme() {
            Some(p)
        } else {
            None
        },
        None => None,
    }
}

/// The URI rewritten to address the same service over loopback.
pub open spec fn loopback_uri_spec(uri: Seq<char>) -> Option<Seq<char>> {
    match ipp_uri(uri) {
        None => None,
        Some(p) => match url_with_host(p.uri.serialization, Some(localhost())) {
            None => None,
            Some(local) => url_with_port(local, Some(p.port)),
        },
    }
}

/// Rewrites a URI to address the same service over loopback.
pub fn loopback_uri(uri: &str) -> (r: Option<String>)
    ensures
        opt_string_view(r) == loopback_uri_spec(uri@),
{
    let parsed = ParsedUri::parse(uri)?;
    if !parsed.scheme.is_ipp() {
        return None;
    }
    proof {
        reveal_strlit("localhost");
    }
    assert("localhost"@ =~= localhost());
    let local = set_url_host(parsed.uri.serialization.as_str(), Some("localhost"))?;
    // `set_host` drops a port that matches the scheme default, and these rarely use it.
    set_url_port(local.as_str(), Some(parsed.port))
}

pub open spec fn ipp_system_path() -> Seq<char> {
    seq!['/', 'i', 'p', 'p', '/', 's', 'y', 's', 't', 'e', 'm']
}

/// The `/ipp/system` URI used for service-level operations on the same host.
pub open spec fn system_service_uri_spec(printer_uri: Seq<char>) -> Option<Seq<char>> {
    match ipp_uri(printer_uri) {
        None => None,
        Some(p) => match url_with_path(p.uri.serialization, ipp_system_path()) {
            None => None,
            Some(a) => match url_with_query(a, None) {
                None => None,
                Some(b) => url_with_fragment(b, None),
            },
        },
    }
}

/// Returns the `/ipp/system` URI used for service-level printer operations.
pub fn system_service_uri(printer_uri: &str) -> (r: Option<String>)
    ensures
        opt_string_view(r) == system_service_uri_spec(printer_uri@),
{
    let parsed = ParsedUri::parse(printer_uri)?;
    if !parsed.scheme.is_ipp() {
        return None;
    }
    proof {
        reveal_strlit("/ipp/system");
    }
    assert("/ipp/system"@ =~= ipp_system_path());
    let with_path = set_url_path(parsed.uri.serialization.as_str(), "/ipp/system")?;
    let with_query = set_url_query(with_path.as_str(), None)?;
    set_url_fragment(with_query.as_str(), None)
}

/// Whether a URI names an IPP endpoint.
pub fn is_ipp_uri(uri: &str) -> (r: bool)
    ensures
        r == ipp_uri(uri@) is Some,
{
    match ParsedUri::parse(uri) {
        Some(parsed) => parsed.scheme.is_ipp(),
        None => false,
    }
}

/// The host and port a URI addresses.
pub fn parse_uri_endpoint(uri: &str) -> (r: Option<(String, u16)>)
    ensures
        match r {
            Some((host, port)) => parsed_uri(uri@) matches Some(p) && host@ == p.host && port
                == p.port,
            None => parsed_uri(uri@) is None,
        },
{
    let parsed = ParsedUri::parse(uri)?;
    Some((parsed.host, parsed.port))
}

/// The web page of the endpoint a URI addresses.
pub fn web_page_from_uri(uri: &str) -> (r: Option<String>)
    ensures
        opt_string_view(r) == match parsed_uri(uri@) {
            Some(p) => web_page_of(p),
            None => None,
        },
{
    let parsed = ParsedUri::parse(uri)?;
    parsed.web_page()
}

/// Whether a URI addresses the local scheduler.
pub fn is_local_scheduler_uri(uri: &str) -> (r: bool)
    ensures
        r == match parsed_uri(uri@) {
            Some(p) => is_local_scheduler_of(p),
            None => false,
        },
{
    match ParsedUri::parse(uri) {
        Some(parsed) => parsed.is_local_scheduler(),
        None => false,
    }
}

} // verus!
