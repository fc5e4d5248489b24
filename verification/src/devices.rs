//! Devices as a Printer Application reports them: how each is attached, how
//! its URI is compared, and the host and port a URI names.

use vstd::prelude::*;
use vstd::utf8::{decode_utf8, encode_utf8, valid_utf8};
use crate::ipp::opt_view;
use crate::text::{
    after_last, after_last_exec, before_any, before_any_exec, chars_of, decimal, decimal_exec,
    eq_ignore_case, eq_vec, first_occurrence, find, lower, lower_vec, parse_u16, parse_u16_exec,
    push_all, push_str, rsplit_once, rsplit_once_exec, slice_of, split_once, split_once_exec,
    starts_with, string_of, split_on, split_on_exec, eq_ignore_case_vec, trim, trim_char_end,
    trim_char_end_vec, trim_vec, lower_char,
};

verus! {

/// How a device is attached, which decides how endpoints are preferred.
#[derive(Clone, Copy, Debug, PartialEq, Eq, Structural, PartialOrd, Ord)]
pub enum DeviceTransport {
    /// Attached directly to this machine over USB.
    Usb,
    /// Found by DNS-SD.
    DnsSd,
    /// A raw TCP socket, usually AppSocket on port 9100.
    Socket,
    /// Found by SNMP.
    Snmp,
    /// Reached over IPP or IPPS.
    Ipp,
    /// A local attachment that is not USB, such as a parallel or serial port.
    OtherLocal,
    /// A scheme specific to one Printer Application's own backend.
    Vendor,
}

/// The scheme of a device URI, lower-cased; empty without a colon.
pub open spec fn uri_scheme(uri: Seq<char>) -> Seq<char> {
    match split_once(uri, ":"@) {
        Some((scheme, _)) => lower(scheme),
        None => Seq::empty(),
    }
}

/// The transport a lower-cased scheme names.
pub open spec fn transport_for(scheme: Seq<char>) -> DeviceTransport {
    if scheme == "usb"@ {
        DeviceTransport::Usb
    } else if scheme == "dnssd"@ {
        DeviceTransport::DnsSd
    } else if scheme == "socket"@ {
        DeviceTransport::Socket
    } else if scheme == "snmp"@ {
        DeviceTransport::Snmp
    } else if scheme == "ipp"@ || scheme == "ipps"@ {
        DeviceTransport::Ipp
    } else if scheme == "file"@ || scheme == "parallel"@ || scheme == "serial"@ {
        DeviceTransport::OtherLocal
    } else {
        DeviceTransport::Vendor
    }
}

impl DeviceTransport {
    pub open spec fn names_a_host(self) -> bool {
        !(self is Usb || self is OtherLocal)
    }

    pub open spec fn rank(self) -> i32 {
        match self {
            DeviceTransport::Usb => 0,
            DeviceTransport::Ipp => 10,
            DeviceTransport::Vendor => 20,
            DeviceTransport::DnsSd => 30,
            DeviceTransport::Socket => 40,
            DeviceTransport::Snmp => 50,
            DeviceTransport::OtherLocal => 60,
        }
    }

    /// Classifies a device URI by its scheme.
    pub fn from_uri(uri: &str) -> (r: Self)
        ensures
            r == transport_for(uri_scheme(uri@)),
    {
        let chars = chars_of(uri);
        let scheme: Vec<char> = match split_once_exec(&chars, &chars_of(":")) {
            Some((s, _)) => lower_vec(&s),
            None => Vec::new(),
        };
        assert(scheme@ == uri_scheme(uri@));
        if eq_vec(&scheme, &chars_of("usb")) {
            DeviceTransport::Usb
        } else if eq_vec(&scheme, &chars_of("dnssd")) {
            DeviceTransport::DnsSd
        } else if eq_vec(&scheme, &chars_of("socket")) {
            DeviceTransport::Socket
        } else if eq_vec(&scheme, &chars_of("snmp")) {
            DeviceTransport::Snmp
        } else if eq_vec(&scheme, &chars_of("ipp")) || eq_vec(&scheme, &chars_of("ipps")) {
            DeviceTransport::Ipp
        } else if eq_vec(&scheme, &chars_of("file")) || eq_vec(&scheme, &chars_of("parallel"))
            || eq_vec(&scheme, &chars_of("serial")) {
            DeviceTransport::OtherLocal
        } else {
            DeviceTransport::Vendor
        }
    }

    /// Returns whether a URI of this transport names a host.
    pub fn addresses_a_host(self) -> (r: bool)
        ensures
            r == self.names_a_host(),
    {
        match self {
            DeviceTransport::Usb | DeviceTransport::OtherLocal => false,
            _ => true,
        }
    }

    /// Orders endpoints by directness and required vendor backends: lower
    /// is preferred.
    pub fn preference(self) -> (r: i32)
        ensures
            r == self.rank(),
    {
        match self {
            DeviceTransport::Usb => 0,
            DeviceTransport::Ipp => 10,
            DeviceTransport::Vendor => 20,
            DeviceTransport::DnsSd => 30,
            DeviceTransport::Socket => 40,
            DeviceTransport::Snmp => 50,
            DeviceTransport::OtherLocal => 60,
        }
    }
}

/// The port a lower-cased scheme is understood to mean when a URI omits one.
pub open spec fn default_port_for(scheme: Seq<char>) -> Option<u16> {
    if scheme == "ipp"@ || scheme == "ipps"@ {
        Some(631)
    } else if scheme == "socket"@ {
        Some(9100)
    } else if scheme == "http"@ {
        Some(80)
    } else if scheme == "https"@ {
        Some(443)
    } else {
        None
    }
}

/// Returns the port a scheme is understood to mean when a URI omits one.
pub fn default_port(scheme: &str) -> (r: Option<u16>)
    ensures
        r == default_port_for(scheme@),
{
    if crate::text::str_eq(scheme, "ipp") || crate::text::str_eq(scheme, "ipps") {
        Some(631)
    } else if crate::text::str_eq(scheme, "socket") {
        Some(9100)
    } else if crate::text::str_eq(scheme, "http") {
        Some(80)
    } else if crate::text::str_eq(scheme, "https") {
        Some(443)
    } else {
        None
    }
}

/// The form two device URIs are compared in: the fragment removed, scheme
/// and authority lower-cased, an explicit default port removed, the path
/// kept. A URI without `://` is only lower-cased.
pub open spec fn normalized_uri_spec(uri: Seq<char>) -> Seq<char> {
    let without_fragment = before_any(uri, seq!['#']);
    match split_once(without_fragment, "://"@) {
        None => lower(without_fragment),
        Some((scheme, rest)) => {
            let scheme = lower(scheme);
            let (authority, path) = match split_once(rest, "/"@) {
                Some(pair) => pair,
                None => (rest, Seq::empty()),
            };
            let authority = lower(authority);
            let authority = match rsplit_once(authority, ":"@) {
                Some((host, port)) => match default_port_for(scheme) {
                    Some(d) => if port == decimal(d as nat) {
                        host
                    } else {
                        authority
                    },
                    None => authority,
                },
                None => authority,
            };
            scheme + "://"@ + authority + "/"@ + path
        },
    }
}

/// Normalizes a device URI for comparison. The original URI is what a
/// printer is configured with; this form only decides whether two URIs
/// name the same device.
pub fn normalized_device_uri(uri: &str) -> (r: String)
    ensures
        r@ == normalized_uri_spec(uri@),
{
    let chars = chars_of(uri);
    let hash = vec!['#'];
    assert(hash@ =~= seq!['#']);
    let without_fragment = before_any_exec(&chars, &hash);
    let sep = chars_of("://");
    match split_once_exec(&without_fragment, &sep) {
        None => string_of(lower_vec(&without_fragment)),
        Some((scheme, rest)) => {
            let scheme = lower_vec(&scheme);
            let (authority, path) = match split_once_exec(&rest, &chars_of("/")) {
                Some(pair) => pair,
                None => (rest, Vec::new()),
            };
            let authority = lower_vec(&authority);
            let scheme_text = string_of(slice_of(&scheme, 0, scheme.len()));
            assert(scheme_text@ == scheme@);
            let authority = match rsplit_once_exec(&authority, &chars_of(":")) {
                Some((host, port)) => match default_port(scheme_text.as_str()) {
                    Some(d) => if eq_vec(&port, &decimal_exec(d as u64)) {
                        host
                    } else {
                        authority
                    },
                    None => authority,
                },
                None => authority,
            };
            let mut out = scheme;
            push_all(&mut out, &sep);
            push_all(&mut out, &authority);
            push_str(&mut out, "/");
            push_all(&mut out, &path);
            string_of(out)
        },
    }
}

/// The host and port a device URI names: the authority's host, and its
/// explicit port or else the port its scheme implies. A bracketed IPv6
/// host keeps its brackets; a colon that is not followed by a port belongs
/// to the host.
pub open spec fn uri_endpoint_spec(uri: Seq<char>) -> Option<(Seq<char>, Option<u16>)> {
    match split_once(uri, "://"@) {
        None => None,
        Some((scheme, rest)) => {
            let implied = default_port_for(lower(scheme));
            let authority = after_last(before_any(rest, seq!['/', '?']), '@');
            if authority.len() == 0 {
                None
            } else {
                match first_occurrence(authority, seq![']']) {
                    Some(end) => {
                        let host = authority.take(end + 1);
                        let suffix = authority.skip(end + 1);
                        let port = if starts_with(suffix, seq![':']) {
                            parse_u16(suffix.skip(1))
                        } else {
                            None
                        };
                        Some((host, if port is Some { port } else { implied }))
                    },
                    None => match rsplit_once(authority, ":"@) {
                        Some((host, port)) => match parse_u16(port) {
                            Some(n) => Some((host, Some(n))),
                            None => Some((authority, implied)),
                        },
                        None => Some((authority, implied)),
                    },
                }
            }
        },
    }
}

/// Extracts the authority host and an explicit or scheme-default port, so
/// `socket://host` and `socket://host:9100` name the same endpoint.
pub fn uri_endpoint(uri: &str) -> (r: Option<(String, Option<u16>)>)
    ensures
        match r {
            Some((host, port)) => uri_endpoint_spec(uri@) == Some((host@, port)),
            None => uri_endpoint_spec(uri@) is None,
        },
{
    let chars = chars_of(uri);
    let (scheme, rest) = split_once_exec(&chars, &chars_of("://"))?;
    let lowered = lower_vec(&scheme);
    let implied = default_port(string_of(lowered).as_str());
    let seps = vec!['/', '?'];
    assert(seps@ =~= seq!['/', '?']);
    let authority = after_last_exec(&before_any_exec(&rest, &seps), '@');
    if authority.len() == 0 {
        return None;
    }
    let close = vec![']'];
    assert(close@ =~= seq![']']);
    match find(&authority, &close) {
        Some(end) => {
            let host = slice_of(&authority, 0, end + 1);
            let suffix = slice_of(&authority, end + 1, authority.len());
            let colon = vec![':'];
            assert(colon@ =~= seq![':']);
            let port = if crate::text::starts_with_exec(&suffix, &colon) {
                parse_u16_exec(&slice_of(&suffix, 1, suffix.len()))
            } else {
                None
            };
            assert(suffix@.subrange(1, suffix@.len() as int) =~= suffix@.skip(1));
            assert(host@ =~= authority@.take(end + 1));
            assert(suffix@ =~= authority@.skip(end + 1));
            let port = if port.is_some() { port } else { implied };
            Some((string_of(host), port))
        },
        None => match rsplit_once_exec(&authority, &chars_of(":")) {
            Some((host, port)) => match parse_u16_exec(&port) {
                Some(n) => Some((string_of(host), Some(n))),
                None => Some((string_of(authority), implied)),
            },
            None => Some((string_of(authority), implied)),
        },
    }
}

/// Names an observation within one application's round:
/// `{application}:{generation}:{index}`.
pub fn observation_id(application_id: &str, generation: u64, index: usize) -> (r: String)
    ensures
        r@ == application_id@ + seq![':'] + decimal(generation as nat) + seq![':'] + decimal(
            index as nat,
        ),
{
    let mut out = chars_of(application_id);
    out.push(':');
    push_all(&mut out, &decimal_exec(generation));
    out.push(':');
    push_all(&mut out, &decimal_exec(index as u64));
    string_of(out)
}

// ------------------------------------------------------------ query values

/// The value of the first `name=value` pair of a query whose name matches
/// `key` without ASCII case and whose value is not empty.
pub open spec fn query_match(pairs: Seq<Seq<char>>, key: Seq<char>) -> Option<Seq<char>>
    decreases pairs.len(),
{
    if pairs.len() == 0 {
        None
    } else {
        match split_once(pairs[0], "="@) {
            Some((name, value)) => if eq_ignore_case(name, key) && value.len() > 0 {
                Some(value)
            } else {
                query_match(pairs.drop_first(), key)
            },
            None => query_match(pairs.drop_first(), key),
        }
    }
}

/// The first non-empty query value whose name matches `key`, ASCII case ignored.
pub open spec fn query_value_spec(uri: Seq<char>, key: Seq<char>) -> Option<Seq<char>> {
    match split_once(uri, "?"@) {
        None => None,
        Some((_, query)) => query_match(split_on(query, seq!['&']), key),
    }
}

/// Returns the first non-empty query value whose name matches `key`
/// without ASCII case sensitivity.
pub fn uri_query_value(uri: &str, key: &str) -> (r: Option<String>)
    ensures
        match r {
            Some(v) => query_value_spec(uri@, key@) == Some(v@),
            None => query_value_spec(uri@, key@) is None,
        },
{
    let chars = chars_of(uri);
    let (head, query) = split_once_exec(&chars, &chars_of("?"))?;
    let ghost q = query@;
    let ghost h = head@;
    let amp = vec!['&'];
    assert(amp@ =~= seq!['&']);
    let pairs = split_on_exec(&query, &amp);
    let ghost all = pairs.deep_view();
    let wanted = chars_of(key);
    let eq = chars_of("=");
    let mut i: usize = 0;
    assert(all.skip(0) =~= all);
    while i < pairs.len()
        invariant
            i <= pairs.len(),
            all == pairs.deep_view(),
            all.len() == pairs.len(),
            split_once(uri@, "?"@) == Some((h, q)),
            all == split_on(q, seq!['&']),
            wanted@ == key@,
            eq@ == "="@,
            query_match(all, key@) == query_match(all.skip(i as int), key@),
        decreases pairs.len() - i,
    {
        proof {
            assert(all.skip(i as int).drop_first() =~= all.skip(i + 1));
            assert(all.skip(i as int)[0] == pairs[i as int]@);
        }
        match split_once_exec(&pairs[i], &eq) {
            Some((name, value)) => {
                if eq_ignore_case_vec(&name, &wanted) && value.len() > 0 {
                    return Some(string_of(value));
                }
            },
            None => {},
        }
        i += 1;
    }
    None
}

// ------------------------------------------------------- DNS-SD instances

/// Undoes DNS-SD's `\DDD` escapes on bytes: three decimal digits after a
/// backslash stand for the byte with that value (kept as written when the
/// value does not fit a byte); a backslash before anything else stands for
/// the byte after it.
pub open spec fn dns_unescape(b: Seq<u8>) -> Seq<u8>
    decreases b.len(),
{
    if b.len() == 0 {
        Seq::empty()
    } else if b[0] != 92 {
        seq![b[0]] + dns_unescape(b.drop_first())
    } else if b.len() >= 4 && 48 <= b[1] <= 57 && 48 <= b[2] <= 57 && 48 <= b[3] <= 57 {
        let code = (b[1] - 48) * 100 + (b[2] - 48) * 10 + (b[3] - 48);
        (if code < 256 {
            seq![code as u8]
        } else {
            b.take(4)
        }) + dns_unescape(b.skip(4))
    } else if b.len() >= 2 {
        seq![b[1]] + dns_unescape(b.skip(2))
    } else {
        Seq::empty()
    }
}

/// What `String::from_utf8_lossy` makes of a byte sequence.
pub uninterp spec fn utf8_lossy(bytes: Seq<u8>) -> Seq<char>;

/// Calls `String::from_utf8_lossy`. Its result is named: std documents that
/// it replaces each invalid sequence with U+FFFD and that valid UTF-8 comes
/// back unchanged, which the second clause states.
#[verifier::external_body]
fn from_utf8_lossy(bytes: Vec<u8>) -> (r: String)
    ensures
        r@ == utf8_lossy(bytes@),
        valid_utf8(bytes@) ==> r@ == decode_utf8(bytes@),
{
    String::from_utf8_lossy(&bytes).into_owned()
}

/// Undoes the `\DDD` escaping DNS-SD uses for characters a label cannot hold.
pub fn decode_dns_sd_escapes(value: &str) -> (r: String)
    ensures
        r@ == utf8_lossy(dns_unescape(encode_utf8(value@))),
        valid_utf8(dns_unescape(encode_utf8(value@))) ==> r@ == decode_utf8(dns_unescape(encode_utf8(value@))),
{
    let bytes = value.as_bytes();
    let ghost b = bytes@;
    let mut decoded: Vec<u8> = Vec::new();
    let mut index: usize = 0;
    assert(b.skip(0) =~= b);
    while index < bytes.len()
        invariant
            b == bytes@,
            b == encode_utf8(value@),
            index <= bytes.len(),
            dns_unescape(b) == decoded@ + dns_unescape(b.skip(index as int)),
        decreases bytes.len() - index,
    {
        let ghost rest = b.skip(index as int);
        let ghost before = decoded@;
        if bytes[index] != 92 {
            decoded.push(bytes[index]);
            proof {
                assert(rest.drop_first() =~= b.skip(index + 1));
            }
            index += 1;
        } else if bytes.len() - index >= 4 && 48 <= bytes[index + 1] && bytes[index + 1] <= 57
            && 48 <= bytes[index + 2] && bytes[index + 2] <= 57 && 48 <= bytes[index + 3]
            && bytes[index + 3] <= 57 {
            let code: u32 = (bytes[index + 1] - 48) as u32 * 100 + (bytes[index + 2] - 48) as u32
                * 10 + (bytes[index + 3] - 48) as u32;
            proof {
                assert(rest[1] == b[index + 1] && rest[2] == b[index + 2] && rest[3] == b[index
                    + 3]);
                assert(rest.skip(4) =~= b.skip(index + 4));
            }
            if code < 256 {
                decoded.push(code as u8);
                assert(decoded@ =~= before + seq![code as u8]);
            } else {
                decoded.push(bytes[index]);
                decoded.push(bytes[index + 1]);
                decoded.push(bytes[index + 2]);
                decoded.push(bytes[index + 3]);
                assert(decoded@ =~= before + rest.take(4));
            }
            index += 4;
        } else {
            if index + 1 < bytes.len() {
                decoded.push(bytes[index + 1]);
                proof {
                    assert(rest[1] == b[index + 1]);
                    assert(rest.skip(2) =~= b.skip(index + 2));
                }
                index += 2;
            } else {
                proof {
                    assert(b.skip(index + 1) =~= Seq::<u8>::empty());
                }
                index += 1;
            }
        }
    }
    assert(b.skip(index as int) =~= Seq::<u8>::empty());
    assert(decoded@ =~= dns_unescape(b));
    from_utf8_lossy(decoded)
}

/// The value of one hexadecimal digit, in either case.
pub open spec fn hex_digit(b: u8) -> Option<int> {
    if 48 <= b <= 57 {
        Some(b - 48)
    } else if 65 <= b <= 70 {
        Some(b - 55)
    } else if 97 <= b <= 102 {
        Some(b - 87)
    } else {
        None
    }
}

/// Percent-decoding of bytes: `%` and two hexadecimal digits stand for the
/// byte they spell; every other byte, a lone `%` included, stands for
/// itself.
pub open spec fn percent_decoded(b: Seq<u8>) -> Seq<u8>
    decreases b.len(),
{
    if b.len() == 0 {
        Seq::empty()
    } else if b[0] == 37 && b.len() >= 3 && hex_digit(b[1]) is Some && hex_digit(b[2]) is Some {
        seq![(hex_digit(b[1])->0 * 16 + hex_digit(b[2])->0) as u8] + percent_decoded(b.skip(3))
    } else {
        seq![b[0]] + percent_decoded(b.drop_first())
    }
}

/// What `percent_encoding` makes of a string: its UTF-8 bytes
/// percent-decoded, then read as `String::from_utf8_lossy` reads them.
pub open spec fn percent_decoded_lossy(s: Seq<char>) -> Seq<char> {
    utf8_lossy(percent_decoded(encode_utf8(s)))
}

/// Calls `percent_encoding::percent_decode_str(..).decode_utf8_lossy()`,
/// which percent-decodes the string's bytes and hands them to
/// `String::from_utf8_lossy`. Claimed: that, as [`percent_decoded_lossy`]
/// states it.
#[verifier::external_body]
pub(crate) fn percent_decode_lossy(s: &str) -> (r: String)
    ensures
        r@ == percent_decoded_lossy(s@),
        valid_utf8(percent_decoded(encode_utf8(s@))) ==> r@ == decode_utf8(percent_decoded(encode_utf8(s@))),
{
    percent_encoding::percent_decode_str(s).decode_utf8_lossy().into_owned()
}

/// The DNS-SD service instance a `dnssd://` device URI names (an optional
/// `cups:` prefix allowed): percent and DNS-SD escapes undone, white space
/// and a trailing dot removed, lower-cased; none when nothing is left.
pub open spec fn dns_sd_service_spec(uri: Seq<char>) -> Option<Seq<char>> {
    let u = if starts_with(uri, "cups:"@) {
        uri.skip(5)
    } else {
        uri
    };
    if !(u.len() >= 8 && eq_ignore_case(u.take(8), "dnssd://"@)) {
        None
    } else {
        let instance = before_any(u.skip(8), seq!['/', '?', '#']);
        let decoded = utf8_lossy(dns_unescape(encode_utf8(percent_decoded_lossy(instance))));
        let cleaned = lower(trim_char_end(trim(decoded), '.'));
        if cleaned.len() > 0 {
            Some(cleaned)
        } else {
            None
        }
    }
}

/// Extracts a `dnssd://` service instance.
pub fn dns_sd_service(uri: &str) -> (r: Option<String>)
    ensures
        match r {
            Some(v) => dns_sd_service_spec(uri@) == Some(v@),
            None => dns_sd_service_spec(uri@) is None,
        },
{
    let chars = chars_of(uri);
    let cups = chars_of("cups:");
    let u = if crate::text::starts_with_exec(&chars, &cups) {
        proof {
            reveal_strlit("cups:");
        }
        slice_of(&chars, 5, chars.len())
    } else {
        chars
    };
    assert(u@ == (if starts_with(uri@, "cups:"@) { uri@.skip(5) } else { uri@ }));
    if u.len() < 8 {
        return None;
    }
    let head = slice_of(&u, 0, 8);
    if !eq_ignore_case_vec(&head, &chars_of("dnssd://")) {
        return None;
    }
    let seps = vec!['/', '?', '#'];
    assert(seps@ =~= seq!['/', '?', '#']);
    let instance = before_any_exec(&slice_of(&u, 8, u.len()), &seps);
    assert(u@.subrange(8, u@.len() as int) =~= u@.skip(8));
    let decoded = decode_dns_sd_escapes(percent_decode_lossy(string_of(instance).as_str()).as_str());
    let trimmed = trim_vec(&chars_of(decoded.as_str()));
    let cleaned = lower_vec(&trim_char_end_vec(&trimmed, '.'));
    if cleaned.len() > 0 {
        Some(string_of(cleaned))
    } else {
        None
    }
}

// ------------------------------------------------------------ observations

/// The manufacturer and model joined with a space, as far as they are known.
pub open spec fn joined_make_model(manufacturer: Option<Seq<char>>, model: Option<Seq<char>>) -> Seq<char> {
    match (manufacturer, model) {
        (Some(a), Some(b)) => a + " "@ + b,
        (Some(a), None) => a,
        (None, Some(b)) => b,
        (None, None) => Seq::empty(),
    }
}

pub open spec fn id_manufacturer(id: crate::device_id::DeviceId) -> Option<Seq<char>> {
    crate::device_id::field_value(id.fields_of(), crate::device_id::manufacturer_keys())
}

pub open spec fn id_model(id: crate::device_id::DeviceId) -> Option<Seq<char>> {
    crate::device_id::field_value(id.fields_of(), crate::device_id::model_keys())
}

/// The make and model a device ID names, when it names any.
pub fn make_and_model(device_id: &crate::device_id::DeviceId) -> (r: Option<String>)
    ensures
        match r {
            Some(n) => trim(joined_make_model(id_manufacturer(*device_id), id_model(*device_id))).len() > 0
                && n@ == joined_make_model(id_manufacturer(*device_id), id_model(*device_id)),
            None => trim(joined_make_model(id_manufacturer(*device_id), id_model(*device_id))).len() == 0,
        },
{
    let mut name: Vec<char> = Vec::new();
    let m = device_id.manufacturer();
    let d = device_id.model();
    match m {
        Some(a) => push_str(&mut name, a),
        None => {},
    }
    match d {
        Some(b) => {
            if m.is_some() {
                push_str(&mut name, " ");
            }
            push_str(&mut name, b);
        },
        None => {},
    }
    assert(name@ =~= joined_make_model(id_manufacturer(*device_id), id_model(*device_id)));
    if trim_vec(&name).len() > 0 {
        Some(string_of(name))
    } else {
        None
    }
}

/// What to show for a device: the application's own description, else the
/// make and model its device ID names, else its URI.
pub open spec fn display_name_spec(
    device_id: Option<crate::device_id::DeviceId>,
    device_info: Option<Seq<char>>,
    device_uri: Seq<char>,
) -> Seq<char> {
    match device_info {
        Some(info) if trim(info).len() > 0 => trim(info),
        _ => match device_id {
            Some(id) if trim(joined_make_model(id_manufacturer(id), id_model(id))).len() > 0 => joined_make_model(
                id_manufacturer(id),
                id_model(id),
            ),
            _ => device_uri,
        },
    }
}

/// Chooses what to show the user for a device.
pub fn display_name(
    device_id: Option<&crate::device_id::DeviceId>,
    device_info: Option<&str>,
    device_uri: &str,
) -> (r: String)
    ensures
        r@ == display_name_spec(
            match device_id {
                Some(id) => Some(*id),
                None => None,
            },
            match device_info {
                Some(i) => Some(i@),
                None => None,
            },
            device_uri@,
        ),
{
    match device_info {
        Some(info) => {
            let t = trim_vec(&chars_of(info));
            if t.len() > 0 {
                return string_of(t);
            }
        },
        None => {},
    }
    match device_id {
        Some(id) => match make_and_model(id) {
            Some(name) => {
                return name;
            },
            None => {},
        },
        None => {},
    }
    string_of(chars_of(device_uri))
}

/// What a device report says about which physical device it is.
#[derive(Clone, Debug, PartialEq, Eq, Default)]
pub struct DeviceEvidence {
    pub serial_number: Option<String>,
    pub device_uuid: Option<String>,
    pub normalized_device_uri: Option<String>,
    pub dns_sd_service: Option<String>,
    pub network_hostname: Option<String>,
    pub network_port: Option<u16>,
}

/// Evidence as plain values.
pub struct DeviceEvidenceView {
    pub serial_number: Option<Seq<char>>,
    pub device_uuid: Option<Seq<char>>,
    pub normalized_device_uri: Option<Seq<char>>,
    pub dns_sd_service: Option<Seq<char>>,
    pub network_hostname: Option<Seq<char>>,
    pub network_port: Option<u16>,
}

impl View for DeviceEvidence {
    type V = DeviceEvidenceView;

    open spec fn view(&self) -> DeviceEvidenceView {
        DeviceEvidenceView {
            serial_number: opt_view(self.serial_number),
            device_uuid: opt_view(self.device_uuid),
            normalized_device_uri: opt_view(self.normalized_device_uri),
            dns_sd_service: opt_view(self.dns_sd_service),
            network_hostname: opt_view(self.network_hostname),
            network_port: self.network_port,
        }
    }
}

impl DeviceEvidence {
    /// A copy of the evidence.
    pub fn duplicate(&self) -> (r: Self)
        ensures
            r@ == self@,
    {
        DeviceEvidence {
            serial_number: crate::ipp::copy_opt(&self.serial_number),
            device_uuid: crate::ipp::copy_opt(&self.device_uuid),
            normalized_device_uri: crate::ipp::copy_opt(&self.normalized_device_uri),
            dns_sd_service: crate::ipp::copy_opt(&self.dns_sd_service),
            network_hostname: crate::ipp::copy_opt(&self.network_hostname),
            network_port: self.network_port,
        }
    }
}

/// Gathers the evidence a report gives: the serial number of the device ID,
/// or else the one the URI carries (trimmed and upper-cased); the URI's
/// comparison form; its DNS-SD service; the host and port of a transport
/// that names a host; and the UUID the URI carries.
pub fn evidence(device_id: Option<&crate::device_id::DeviceId>, device_uri: &str) -> (r: DeviceEvidence)
    ensures
        opt_view(r.normalized_device_uri) == Some(normalized_uri_spec(device_uri@)),
        opt_view(r.dns_sd_service) == dns_sd_service_spec(device_uri@),
        transport_for(uri_scheme(device_uri@)).names_a_host() && uri_endpoint_spec(device_uri@) is Some
            ==> (uri_endpoint_spec(device_uri@) matches Some((host, port))
            && opt_view(r.network_hostname) == Some(host) && r.network_port == port),
        !(transport_for(uri_scheme(device_uri@)).names_a_host() && uri_endpoint_spec(device_uri@) is Some)
            ==> r.network_hostname is None && r.network_port is None,
        match device_id {
            Some(id) if crate::device_id::field_value(id.fields_of(), crate::device_id::serial_keys()) is Some =>
                opt_view(r.serial_number) == crate::device_id::field_value(id.fields_of(), crate::device_id::serial_keys()),
            _ => opt_view(r.serial_number) == match query_value_spec(device_uri@, "serial"@) {
                Some(v) => Some(crate::text::upper(trim(v))),
                None => None,
            },
        },
        opt_view(r.device_uuid) == query_value_spec(device_uri@, "uuid"@),
{
    let serial_from_id: Option<String> = match device_id {
        Some(id) => match id.serial_number() {
            Some(sn) => Some(string_of(chars_of(sn))),
            None => None,
        },
        None => None,
    };
    let mut found = DeviceEvidence {
        serial_number: serial_from_id,
        device_uuid: None,
        normalized_device_uri: Some(normalized_device_uri(device_uri)),
        dns_sd_service: dns_sd_service(device_uri),
        network_hostname: None,
        network_port: None,
    };
    if DeviceTransport::from_uri(device_uri).addresses_a_host() {
        match uri_endpoint(device_uri) {
            Some((host, port)) => {
                found.network_hostname = Some(host);
                found.network_port = port;
            },
            None => {},
        }
    }
    match uri_query_value(device_uri, "serial") {
        Some(serial) => {
            if found.serial_number.is_none() {
                found.serial_number = Some(string_of(crate::text::upper_vec(&trim_vec(&chars_of(serial.as_str())))));
            }
        },
        None => {},
    }
    found.device_uuid = uri_query_value(device_uri, "uuid");
    found
}

/// One device, exactly as one Printer Application reported it.
#[derive(Clone, Debug)]
pub struct PaDeviceObservation {
    /// Identifier scoped to the owning application and discovery generation.
    pub id: String,
    /// The application that reported this device.
    pub printer_application_id: String,
    /// The exact URI the application returned.
    pub device_uri: String,
    /// The device ID, when the application reported a usable one.
    pub device_id: Option<crate::device_id::DeviceId>,
    /// What to show the user for this device.
    pub display_name: String,
    pub identity: DeviceEvidence,
    pub transport: DeviceTransport,
}

/// One device collection of a `PAPPL-Find-Devices` answer.
#[derive(Clone, Debug)]
pub struct DeviceRecord {
    pub device_uri: Option<String>,
    pub device_id: Option<String>,
    pub device_info: Option<String>,
}

/// Builds an observation, rejecting collections without a usable device
/// URI (one with a scheme); an empty device ID counts as none.
pub fn observation(application_id: &str, generation: u64, record: &DeviceRecord, index: usize) -> (r: Option<PaDeviceObservation>)
    ensures
        match record.device_uri {
            Some(u) => {
                let uri = crate::client::bounded_spec(u@);
                if uri.len() > 0 && uri.contains(':') {
                    r matches Some(o) && o.device_uri@ == uri
                        && o.printer_application_id@ == application_id@
                        && o.id@ == application_id@ + seq![':'] + decimal(generation as nat) + seq![':'] + decimal(index as nat)
                        && o.transport == transport_for(uri_scheme(uri))
                } else {
                    r is None
                }
            },
            None => r is None,
        },
{
    let device_uri = match &record.device_uri {
        Some(u) => crate::client::bounded(string_of(chars_of(u.as_str()))),
        None => {
            return None;
        },
    };
    let uri_chars = chars_of(device_uri.as_str());
    if uri_chars.len() == 0 || !crate::text::contains_char(&uri_chars, ':') {
        return None;
    }
    let device_id = match &record.device_id {
        Some(raw) => {
            let bounded_raw = crate::client::bounded(string_of(chars_of(raw.as_str())));
            let parsed = crate::device_id::DeviceId::parse(bounded_raw.as_str());
            if parsed.is_empty() {
                None
            } else {
                Some(parsed)
            }
        },
        None => None,
    };
    let device_info = match &record.device_info {
        Some(info) => Some(crate::client::bounded(string_of(chars_of(info.as_str())))),
        None => None,
    };
    let transport = DeviceTransport::from_uri(device_uri.as_str());
    let identity = evidence(device_id.as_ref(), device_uri.as_str());
    let shown = display_name(
        device_id.as_ref(),
        match &device_info {
            Some(i) => Some(i.as_str()),
            None => None,
        },
        device_uri.as_str(),
    );
    Some(PaDeviceObservation {
        id: observation_id(application_id, generation, index),
        printer_application_id: string_of(chars_of(application_id)),
        device_uri,
        device_id,
        display_name: shown,
        identity,
        transport,
    })
}

/// Asks for every transport at once, which a healthy application answers
/// fastest.
pub const EVERY_DEVICE_TYPE: [&'static str; 1] = ["all"];

/// Asked one at a time when the combined scan fails, so one broken
/// transport cannot hide the others.
pub const EACH_DEVICE_TYPE: [&'static str; 5] = ["dns-sd", "usb", "snmp", "other-local", "other-network"];

/// What one device scan produced.
#[derive(Debug)]
pub struct FindDevicesResult {
    pub observations: Vec<PaDeviceObservation>,
    /// Number of malformed device collections.
    pub quarantined: usize,
}

pub open spec fn uris_of(observations: Seq<PaDeviceObservation>) -> Seq<Seq<char>> {
    observations.map_values(|o: PaDeviceObservation| o.device_uri@)
}

/// The device URIs after adding, in order, those of `incoming` not seen yet.
pub open spec fn merged_uris(seen: Seq<Seq<char>>, incoming: Seq<Seq<char>>) -> Seq<Seq<char>>
    decreases incoming.len(),
{
    if incoming.len() == 0 {
        seen
    } else {
        let next = if seen.contains(incoming[0]) {
            seen
        } else {
            seen.push(incoming[0])
        };
        merged_uris(next, incoming.drop_first())
    }
}

/// Adds one transport's scan to the merged one: devices already found
/// through another transport are skipped, the rest are renumbered to stay
/// unique across the merged scan, and the malformed collections are counted.
pub fn merge_scan(merged: &mut FindDevicesResult, result: FindDevicesResult, application_id: &str, generation: u64)
    requires
        old(merged).quarantined + result.quarantined <= usize::MAX,
    ensures
        final(merged).quarantined == old(merged).quarantined + result.quarantined,
        uris_of(final(merged).observations@) == merged_uris(uris_of(old(merged).observations@), uris_of(result.observations@)),
        forall|k: int| old(merged).observations@.len() <= k < final(merged).observations@.len() ==>
            (#[trigger] final(merged).observations@[k]).id@ == application_id@ + seq![':'] + decimal(generation as nat) + seq![':'] + decimal(k as nat),
        forall|k: int| 0 <= k < old(merged).observations@.len() ==> #[trigger] final(merged).observations@[k] == old(merged).observations@[k],
{
    merged.quarantined = merged.quarantined + result.quarantined;
    let incoming = result.observations;
    let ghost start = merged.observations@;
    let ghost q = merged.quarantined;
    let ghost all_in = uris_of(incoming@);
    let mut i: usize = 0;
    assert(all_in.skip(0) =~= all_in);
    while i < incoming.len()
        invariant
            i <= incoming.len(),
            all_in == uris_of(incoming@),
            merged.quarantined == q,
            start.len() <= merged.observations@.len(),
            merged_uris(uris_of(start), all_in) == merged_uris(uris_of(merged.observations@), all_in.skip(i as int)),
            forall|k: int| start.len() <= k < merged.observations@.len() ==>
                (#[trigger] merged.observations@[k]).id@ == application_id@ + seq![':'] + decimal(generation as nat) + seq![':'] + decimal(k as nat),
            forall|k: int| 0 <= k < start.len() ==> #[trigger] merged.observations@[k] == start[k],
        decreases incoming.len() - i,
    {
        let uri = chars_of(incoming[i].device_uri.as_str());
        let ghost seen = uris_of(merged.observations@);
        let mut present = false;
        let mut k: usize = 0;
        while k < merged.observations.len()
            invariant
                k <= merged.observations.len(),
                seen == uris_of(merged.observations@),
                uri@ == all_in[i as int],
                present <==> exists|m: int| 0 <= m < k && #[trigger] seen[m] == uri@,
            decreases merged.observations.len() - k,
        {
            if eq_vec(&chars_of(merged.observations[k].device_uri.as_str()), &uri) {
                assert(seen[k as int] == uri@);
                present = true;
            }
            k += 1;
        }
        proof {
            assert(all_in.skip(i as int).drop_first() =~= all_in.skip(i + 1));
            assert(all_in.skip(i as int)[0] == all_in[i as int]);
        }
        if !present {
            let mut observation = incoming[i].clone();
            let n = merged.observations.len();
            observation.id = observation_id(application_id, generation, n);
            observation.device_uri = string_of(chars_of(incoming[i].device_uri.as_str()));
            merged.observations.push(observation);
            proof {
                assert(uris_of(merged.observations@) =~= seen.push(all_in[i as int]));
            }
        }
        i += 1;
    }
    assert(all_in.skip(i as int) =~= Seq::<Seq<char>>::empty());
}

/// How the fallback scans end: the merged result when any transport
/// answered, else the error of the combined scan.
/// Takes one transport's scan into the merged scan, where the combined
/// scan failed: an answer marks the merge answered and adds its devices,
/// its count of unusable collections saturating; a failure changes
/// nothing.
pub fn absorb_type_scan(
    merged: &mut FindDevicesResult,
    answered: &mut bool,
    result: Result<FindDevicesResult, crate::client::PaError>,
    application_id: &str,
    generation: u64,
)
    ensures
        *final(answered) == (*old(answered) || result is Ok),
        match result {
            Ok(found) => {
                &&& final(merged).quarantined == if old(merged).quarantined + found.quarantined <= usize::MAX {
                    old(merged).quarantined + found.quarantined
                } else {
                    usize::MAX as int
                }
                &&& uris_of(final(merged).observations@) == merged_uris(uris_of(old(merged).observations@), uris_of(found.observations@))
                &&& forall|k: int| old(merged).observations@.len() <= k < final(merged).observations@.len() ==>
                    (#[trigger] final(merged).observations@[k]).id@ == application_id@ + seq![':'] + decimal(generation as nat) + seq![':'] + decimal(k as nat)
                &&& forall|k: int| 0 <= k < old(merged).observations@.len() ==> #[trigger] final(merged).observations@[k] == old(merged).observations@[k]
            },
            Err(_) => final(merged).observations@ == old(merged).observations@ && final(merged).quarantined == old(merged).quarantined,
        },
{
    match result {
        Ok(mut found) => {
            *answered = true;
            let room = usize::MAX - merged.quarantined;
            if found.quarantined > room {
                found.quarantined = room;
            }
            merge_scan(merged, found, application_id, generation);
        },
        Err(_) => {},
    }
}

pub fn merged_or_error(merged: FindDevicesResult, answered: bool, error: crate::client::PaError) -> (r: Result<FindDevicesResult, crate::client::PaError>)
    ensures
        answered ==> (r matches Ok(m) && m.observations@ == merged.observations@ && m.quarantined
            == merged.quarantined),
        !answered ==> r == Err::<FindDevicesResult, crate::client::PaError>(error),
{
    if answered {
        Ok(merged)
    } else {
        Err(error)
    }
}

/// One `smi55357-device-col` attribute of a `PAPPL-Find-Devices` answer.
#[derive(Clone, Debug)]
pub struct DeviceCollectionAttribute {
    /// Whether it came in the System group, where it belongs.
    pub in_system_group: bool,
    /// Whether its value is a collection, as it must be.
    pub is_collection: bool,
    /// Its collections, in order.
    pub collections: Vec<DeviceRecord>,
}

/// The device URI a collection offers, if it is usable: bounded, and
/// with a scheme.
pub open spec fn usable_uri(record: DeviceRecord) -> Option<Seq<char>> {
    match record.device_uri {
        Some(u) => {
            let uri = crate::client::bounded_spec(u@);
            if uri.len() > 0 && uri.contains(':') {
                Some(uri)
            } else {
                None
            }
        },
        None => None,
    }
}

/// The device URIs read from `records` after `uris`, and the count of
/// unusable collections after `quarantined`: a usable URI not yet read is
/// added, one read before is skipped, an unusable collection is counted;
/// reading stops once `MAX_COLLECTIONS` devices are read.
pub open spec fn read_device_records(uris: Seq<Seq<char>>, quarantined: int, records: Seq<DeviceRecord>) -> (Seq<
    Seq<char>,
>, int)
    decreases records.len(),
{
    if records.len() == 0 {
        (uris, quarantined)
    } else {
        let (u, q) = match usable_uri(records[0]) {
            None => (uris, quarantined + 1),
            Some(uri) => if uris.contains(uri) {
                (uris, quarantined)
            } else {
                (uris.push(uri), quarantined)
            },
        };
        if u.len() >= crate::client::MAX_COLLECTIONS {
            (u, q)
        } else {
            read_device_records(u, q, records.drop_first())
        }
    }
}

/// The device URIs and the unusable-collection count read from the
/// attributes `attributes`: one outside the System group, or not a
/// collection, counts as one unusable collection; at most
/// `MAX_COLLECTIONS` collections of each attribute are read.
pub open spec fn read_device_attributes(
    uris: Seq<Seq<char>>,
    quarantined: int,
    attributes: Seq<DeviceCollectionAttribute>,
) -> (Seq<Seq<char>>, int)
    decreases attributes.len(),
{
    if attributes.len() == 0 {
        (uris, quarantined)
    } else {
        let attribute = attributes[0];
        let read = if !attribute.in_system_group || !attribute.is_collection {
            (uris, quarantined + 1)
        } else {
            let records = attribute.collections@;
            read_device_records(
                uris,
                quarantined,
                if records.len() < crate::client::MAX_COLLECTIONS {
                    records
                } else {
                    records.take(crate::client::MAX_COLLECTIONS as int)
                },
            )
        };
        read_device_attributes(read.0, read.1, attributes.drop_first())
    }
}

/// A count kept within `usize`.
pub open spec fn capped(n: int) -> int {
    if n > usize::MAX {
        usize::MAX as int
    } else {
        n
    }
}

/// Reads the devices out of a `PAPPL-Find-Devices` answer. `not-found` is a
/// successful empty scan; any other failing status is an error. A success
/// lists the devices [`read_device_attributes`] reads, in order, each
/// numbered by its position and reached over the transport its URI names,
/// and counts the unusable collections.
pub fn observations_from(
    application_id: &str,
    generation: u64,
    status: crate::client::IppStatus,
    code: u16,
    status_attributes: &Vec<crate::ipp::IppAttribute>,
    device_attributes: &Vec<DeviceCollectionAttribute>,
) -> (r: Result<FindDevicesResult, crate::client::PaError>)
    ensures
        status is ErrorNotFound ==> (r matches Ok(found) && found.observations@.len() == 0 && found.quarantined == 0),
        !(status is ErrorNotFound) && !status.successful() ==> (r matches Err(e) && crate::client::status_error(
            e,
            status,
            code,
            crate::ipp::attributes_view(status_attributes@),
        )),
        !(status is ErrorNotFound) && status.successful() ==> (r matches Ok(found)
            && uris_of(found.observations@) == read_device_attributes(Seq::empty(), 0, device_attributes@).0
            && found.quarantined == capped(read_device_attributes(Seq::empty(), 0, device_attributes@).1)),
        r matches Ok(found) ==> (forall|a: int, b: int| 0 <= a < b < found.observations@.len()
            ==> (#[trigger] found.observations@[a]).device_uri@ != (#[trigger] found.observations@[b]).device_uri@)
            && (forall|k: int| 0 <= k < found.observations@.len() ==> (#[trigger] found.observations@[k]).id@
                == application_id@ + seq![':'] + decimal(generation as nat) + seq![':'] + decimal(k as nat)
                && found.observations@[k].printer_application_id@ == application_id@
                && found.observations@[k].transport == transport_for(uri_scheme(found.observations@[k].device_uri@))),
{
    if status == crate::client::IppStatus::ErrorNotFound {
        return Ok(FindDevicesResult { observations: Vec::new(), quarantined: 0 });
    }
    match crate::client::check_status(status, code, status_attributes) {
        Ok(()) => {},
        Err(e) => {
            return Err(e);
        },
    }
    let ghost all = device_attributes@;
    let ghost total = read_device_attributes(Seq::empty(), 0, all);
    let mut observations: Vec<PaDeviceObservation> = Vec::new();
    let mut quarantined: usize = 0;
    let ghost mut counted: int = 0;
    let mut a: usize = 0;
    proof {
        assert(all.skip(0) =~= all);
        assert(uris_of(observations@) =~= Seq::<Seq<char>>::empty());
    }
    while a < device_attributes.len()
        invariant
            a <= device_attributes.len(),
            all == device_attributes@,
            total == read_device_attributes(Seq::empty(), 0, all),
            total == read_device_attributes(uris_of(observations@), counted, all.skip(a as int)),
            quarantined as int == capped(counted),
            0 <= counted,
            forall|x: int, y: int| 0 <= x < y < observations@.len()
                ==> (#[trigger] observations@[x]).device_uri@ != (#[trigger] observations@[y]).device_uri@,
            forall|k: int| 0 <= k < observations@.len() ==> (#[trigger] observations@[k]).id@
                == application_id@ + seq![':'] + decimal(generation as nat) + seq![':'] + decimal(k as nat)
                && observations@[k].printer_application_id@ == application_id@
                && observations@[k].transport == transport_for(uri_scheme(observations@[k].device_uri@)),
        decreases device_attributes.len() - a,
    {
        let attribute = &device_attributes[a];
        proof {
            assert(all.skip(a as int)[0] == *attribute);
            assert(all.skip(a as int).drop_first() =~= all.skip(a + 1));
        }
        if !attribute.in_system_group || !attribute.is_collection {
            quarantined = quarantined.saturating_add(1);
            proof {
                counted = counted + 1;
            }
        } else {
            let limit = if attribute.collections.len() < crate::client::MAX_COLLECTIONS {
                attribute.collections.len()
            } else {
                crate::client::MAX_COLLECTIONS
            };
            let ghost records = if attribute.collections@.len() < crate::client::MAX_COLLECTIONS {
                attribute.collections@
            } else {
                attribute.collections@.take(crate::client::MAX_COLLECTIONS as int)
            };
            let ghost after = read_device_records(uris_of(observations@), counted, records);
            proof {
                assert(records.len() == limit);
                assert(records.skip(0) =~= records);
            }
            let mut c: usize = 0;
            while c < limit
                invariant_except_break
                    c <= limit,
                    limit == records.len(),
                    limit <= attribute.collections@.len(),
                    forall|j: int| 0 <= j < limit ==> records[j] == attribute.collections@[j],
                    after == read_device_records(uris_of(observations@), counted, records.skip(c as int)),
                invariant
                    quarantined as int == capped(counted),
                    0 <= counted,
                    forall|x: int, y: int| 0 <= x < y < observations@.len()
                        ==> (#[trigger] observations@[x]).device_uri@ != (#[trigger] observations@[y]).device_uri@,
                    forall|k: int| 0 <= k < observations@.len() ==> (#[trigger] observations@[k]).id@
                        == application_id@ + seq![':'] + decimal(generation as nat) + seq![':'] + decimal(k as nat)
                        && observations@[k].printer_application_id@ == application_id@
                        && observations@[k].transport == transport_for(uri_scheme(observations@[k].device_uri@)),
                ensures
                    after == (uris_of(observations@), counted),
                decreases limit - c,
            {
                let record = &attribute.collections[c];
                let ghost tail = records.skip(c as int);
                let ghost seen = uris_of(observations@);
                proof {
                    assert(tail[0] == *record);
                    assert(tail.drop_first() =~= records.skip(c + 1));
                }
                match observation(application_id, generation, record, observations.len()) {
                    Some(found) => {
                        let uri = chars_of(found.device_uri.as_str());
                        let mut present = false;
                        let mut k: usize = 0;
                        while k < observations.len()
                            invariant
                                k <= observations.len(),
                                uri@ == found.device_uri@,
                                present <==> exists|m: int| 0 <= m < k && (#[trigger] observations@[m]).device_uri@ == uri@,
                            decreases observations.len() - k,
                        {
                            if eq_vec(&chars_of(observations[k].device_uri.as_str()), &uri) {
                                assert(observations@[k as int].device_uri@ == uri@);
                                present = true;
                            }
                            k += 1;
                        }
                        proof {
                            if seen.contains(uri@) {
                                let m = choose|m: int| 0 <= m < seen.len() && seen[m] == uri@;
                                assert(observations@[m].device_uri@ == uri@);
                            }
                            if present {
                                let m = choose|m: int| 0 <= m < k && (#[trigger] observations@[m]).device_uri@ == uri@;
                                assert(seen[m] == uri@);
                            }
                        }
                        if !present {
                            let ghost before = observations@;
                            observations.push(found);
                            proof {
                                assert(uris_of(observations@) =~= seen.push(uri@));
                                assert forall|x: int, y: int| 0 <= x < y < observations@.len() implies
                                    (#[trigger] observations@[x]).device_uri@ != (#[trigger] observations@[y]).device_uri@ by {
                                    if y == before.len() {
                                        assert(observations@[x] == before[x]);
                                        assert(seen[x] == before[x].device_uri@);
                                    } else {
                                        assert(observations@[x] == before[x] && observations@[y] == before[y]);
                                    }
                                }
                                assert forall|k: int| 0 <= k < observations@.len() implies (#[trigger] observations@[k]).id@
                                    == application_id@ + seq![':'] + decimal(generation as nat) + seq![':'] + decimal(k as nat)
                                    && observations@[k].printer_application_id@ == application_id@
                                    && observations@[k].transport == transport_for(uri_scheme(observations@[k].device_uri@)) by {
                                    if k < before.len() {
                                        assert(observations@[k] == before[k]);
                                    }
                                }
                            }
                        }
                    },
                    None => {
                        quarantined = quarantined.saturating_add(1);
                        proof {
                            counted = counted + 1;
                        }
                    },
                }
                if observations.len() >= crate::client::MAX_COLLECTIONS {
                    proof {
                        assert(uris_of(observations@).len() == observations@.len());
                    }
                    break;
                }
                c += 1;
            }
            proof {
                if c == limit {
                    assert(records.skip(c as int) =~= Seq::<DeviceRecord>::empty());
                }
            }
        }
        a += 1;
    }
    proof {
        assert(all.skip(a as int) =~= Seq::<DeviceCollectionAttribute>::empty());
    }
    Ok(FindDevicesResult { observations, quarantined })
}

} // verus!
