//! Matching a printer a Printer Application created to the destination
//! that later appears. Nothing here fabricates a destination: a receipt is
//! only joined to one the destination pipeline reported.

use vstd::prelude::*;
use crate::entry::{PrinterEntry, PrinterEntryView, entries_view};
use crate::ipp::opt_view;
use crate::text::{
    after_last, after_last_exec, before_any, before_any_exec, chars_of, decimal, decimal_exec,
    eq_ignore_case, eq_ignore_case_vec, eq_vec, find, first_occurrence, lower, lower_vec,
    parse_u16, parse_u16_exec, push_all, push_str, rsplit_once, rsplit_once_exec, slice_of,
    split_once, split_once_exec, starts_with, starts_with_exec, string_of, trim, trim_char_end,
    trim_char_end_vec, trim_vec,
};
use crate::uri::{is_loopback, is_loopback_host};

verus! {

/// How long to keep waiting for a destination that never appears, in milliseconds.
pub const ADVERTISEMENT_TIMEOUT_MS: u64 = 90000;

/// How far a configuration attempt has got.
#[derive(Clone, Debug, PartialEq, Eq)]
pub enum PendingConfigurationState {
    /// Created, waiting for the destination pipeline to notice.
    AwaitingAdvertisement,
    /// Matched to a destination.
    Reconciled { destination_id: String },
    /// The device already had a printer in this application.
    AlreadyConfigured,
    /// Setup has to continue in the application's own interface, or the
    /// printer was created but never advertised.
    ManualActionRequired,
    /// The request was sent and the outcome could not be established.
    UnknownOutcome,
}

impl PendingConfigurationState {
    /// Returns whether this attempt is still waiting for a destination.
    pub fn is_awaiting(&self) -> (r: bool)
        ensures
            r <==> self is AwaitingAdvertisement,
    {
        match self {
            PendingConfigurationState::AwaitingAdvertisement => true,
            _ => false,
        }
    }
}

/// What was created, and what has become of it.
#[derive(Clone, Debug)]
pub struct PendingPaConfiguration {
    pub operation_id: String,
    pub printer_application_id: String,
    pub physical_printer_id: String,
    pub candidate_id: String,
    pub configured_printer_name: String,
    pub expected_printer_uri: Option<String>,
    pub expected_printer_uuid: Option<String>,
    /// The endpoint the owning application serves its printers on.
    pub application_endpoint: Option<(String, u16)>,
    pub web_interface_uri: Option<String>,
    /// When the attempt was made, in milliseconds of the service's clock.
    pub created_at_ms: u64,
    pub state: PendingConfigurationState,
}

/// Whether an attempt waiting for its destination has waited too long.
pub fn advertisement_overdue(pending: &PendingPaConfiguration, now_ms: u64) -> (r: bool)
    ensures
        r == (pending.state is AwaitingAdvertisement && now_ms >= pending.created_at_ms
            && now_ms - pending.created_at_ms >= ADVERTISEMENT_TIMEOUT_MS),
{
    pending.state.is_awaiting() && now_ms >= pending.created_at_ms && now_ms
        - pending.created_at_ms >= ADVERTISEMENT_TIMEOUT_MS
}

// ------------------------------------------------------------ normal forms

/// A UUID as compared: trimmed, lower-cased, without a `urn:uuid:` prefix.
pub open spec fn normalize_uuid_spec(uuid: Seq<char>) -> Seq<char> {
    let lowered = lower(trim(uuid));
    if starts_with(lowered, "urn:uuid:"@) {
        lowered.skip(9)
    } else {
        lowered
    }
}

pub fn normalize_uuid(uuid: &str) -> (r: Vec<char>)
    ensures
        r@ == normalize_uuid_spec(uuid@),
{
    let lowered = lower_vec(&trim_vec(&chars_of(uuid)));
    let prefix = chars_of("urn:uuid:");
    if starts_with_exec(&lowered, &prefix) {
        proof {
            reveal_strlit("urn:uuid:");
        }
        slice_of(&lowered, 9, lowered.len())
    } else {
        lowered
    }
}

/// A URI as compared: no query or fragment, no trailing slashes, lower-cased.
pub open spec fn normalize_uri_spec(uri: Seq<char>) -> Seq<char> {
    lower(trim_char_end(before_any(uri, seq!['?', '#']), '/'))
}

pub fn normalize_uri(uri: &str) -> (r: Vec<char>)
    ensures
        r@ == normalize_uri_spec(uri@),
{
    let seps = vec!['?', '#'];
    assert(seps@ =~= seq!['?', '#']);
    lower_vec(&trim_char_end_vec(&before_any_exec(&chars_of(uri), &seps), '/'))
}

/// The queue name of a destination: its identifier up to the first `/`.
pub open spec fn queue_name_spec(id: Seq<char>) -> Seq<char> {
    match split_once(id, "/"@) {
        Some((name, _)) => name,
        None => id,
    }
}

pub fn queue_name(destination: &PrinterEntry) -> (r: Vec<char>)
    ensures
        r@ == queue_name_spec(destination@.id),
{
    let id = chars_of(destination.id.as_str());
    match split_once_exec(&id, &chars_of("/")) {
        Some((name, _)) => name,
        None => id,
    }
}

/// The last segment of a URI's path, without query, fragment or trailing
/// slashes; none when the URI has no path or the segment is empty.
pub open spec fn last_path_segment_spec(uri: Seq<char>) -> Option<Seq<char>> {
    match split_once(uri, "://"@) {
        None => None,
        Some((_, rest)) => match split_once(rest, "/"@) {
            None => None,
            Some((_, path)) => {
                let segment = after_last(
                    trim_char_end(before_any(path, seq!['?', '#']), '/'),
                    '/',
                );
                if segment.len() > 0 {
                    Some(segment)
                } else {
                    None
                }
            },
        },
    }
}

pub fn last_path_segment(uri: &str) -> (r: Option<String>)
    ensures
        match r {
            Some(s) => last_path_segment_spec(uri@) == Some(s@),
            None => last_path_segment_spec(uri@) is None,
        },
{
    let (_, rest) = split_once_exec(&chars_of(uri), &chars_of("://"))?;
    let (_, path) = split_once_exec(&rest, &chars_of("/"))?;
    let seps = vec!['?', '#'];
    assert(seps@ =~= seq!['?', '#']);
    let segment = after_last_exec(&trim_char_end_vec(&before_any_exec(&path, &seps), '/'), '/');
    if segment.len() > 0 {
        Some(string_of(segment))
    } else {
        None
    }
}

/// The port a scheme means here, where only IPP and web schemes count.
pub open spec fn served_port(scheme: Seq<char>) -> Option<u16> {
    if scheme == "ipp"@ || scheme == "ipps"@ {
        Some(631)
    } else if scheme == "http"@ {
        Some(80)
    } else if scheme == "https"@ {
        Some(443)
    } else {
        None
    }
}

/// The lower-cased host and the port an IPP or web URI is served on; none
/// for other schemes, or for a port that is not a number.
pub open spec fn uri_endpoint_spec(uri: Seq<char>) -> Option<(Seq<char>, u16)> {
    match split_once(uri, "://"@) {
        None => None,
        Some((scheme, rest)) => {
            let authority = before_any(rest, seq!['/', '?']);
            match served_port(lower(scheme)) {
                None => None,
                Some(default_port) => match first_occurrence(authority, seq![']']) {
                    Some(end) => {
                        let suffix = authority.skip(end + 1);
                        let port = if starts_with(suffix, seq![':']) {
                            parse_u16(suffix.skip(1))
                        } else {
                            None
                        };
                        Some(
                            (
                                lower(authority.take(end + 1)),
                                match port {
                                    Some(p) => p,
                                    None => default_port,
                                },
                            ),
                        )
                    },
                    None => match rsplit_once(authority, ":"@) {
                        Some((host, port)) => match parse_u16(port) {
                            Some(p) => Some((lower(host), p)),
                            None => None,
                        },
                        None => Some((lower(authority), default_port)),
                    },
                },
            }
        },
    }
}

pub fn uri_endpoint(uri: &str) -> (r: Option<(Vec<char>, u16)>)
    ensures
        match r {
            Some((host, port)) => uri_endpoint_spec(uri@) == Some((host@, port)),
            None => uri_endpoint_spec(uri@) is None,
        },
{
    let (scheme, rest) = split_once_exec(&chars_of(uri), &chars_of("://"))?;
    let seps = vec!['/', '?'];
    assert(seps@ =~= seq!['/', '?']);
    let authority = before_any_exec(&rest, &seps);
    let scheme = lower_vec(&scheme);
    let default_port: u16 = if eq_vec(&scheme, &chars_of("ipp")) || eq_vec(
        &scheme,
        &chars_of("ipps"),
    ) {
        631
    } else if eq_vec(&scheme, &chars_of("http")) {
        80
    } else if eq_vec(&scheme, &chars_of("https")) {
        443
    } else {
        return None;
    };
    let close = vec![']'];
    assert(close@ =~= seq![']']);
    match find(&authority, &close) {
        Some(end) => {
            let n = authority.len();
            assert(close@.len() == 1);
            assert(end + 1 <= n);
            let suffix = slice_of(&authority, end + 1, authority.len());
            assert(suffix@ =~= authority@.skip(end + 1));
            let colon = vec![':'];
            assert(colon@ =~= seq![':']);
            let port = if starts_with_exec(&suffix, &colon) {
                assert(suffix@.subrange(1, suffix@.len() as int) =~= suffix@.skip(1));
                parse_u16_exec(&slice_of(&suffix, 1, suffix.len()))
            } else {
                None
            };
            let host = lower_vec(&slice_of(&authority, 0, end + 1));
            assert(authority@.subrange(0, end + 1) =~= authority@.take(end + 1));
            Some(
                (
                    host,
                    match port {
                        Some(p) => p,
                        None => default_port,
                    },
                ),
            )
        },
        None => match rsplit_once_exec(&authority, &chars_of(":")) {
            Some((host, port)) => match parse_u16_exec(&port) {
                Some(p) => Some((lower_vec(&host), p)),
                None => None,
            },
            None => Some((lower_vec(&authority), default_port)),
        },
    }
}

/// Two hosts are the same when they match without case, or when both are
/// spellings of this machine.
pub open spec fn hosts_match_spec(left: Seq<char>, right: Seq<char>) -> bool {
    eq_ignore_case(left, right) || (is_loopback(left) && is_loopback(right))
}

pub fn hosts_match(left: &Vec<char>, right: &str) -> (r: bool)
    ensures
        r == hosts_match_spec(left@, right@),
{
    if eq_ignore_case_vec(left, &chars_of(right)) {
        return true;
    }
    let l = string_of(slice_of(left, 0, left.len()));
    assert(left@.subrange(0, left@.len() as int) =~= left@);
    is_loopback_host(l.as_str()) && is_loopback_host(right)
}

// ---------------------------------------------------------------- matching

/// The URIs a destination can be reached by: its printer URI, then its
/// device URI, where it has them.
pub open spec fn destination_uris(d: PrinterEntryView) -> Seq<Seq<char>> {
    (match d.printer_uri() {
        Some(u) => seq![u],
        None => Seq::empty(),
    }) + (match d.device_uri() {
        Some(u) => seq![u],
        None => Seq::empty(),
    })
}

pub open spec fn uuid_matches(d: PrinterEntryView, wanted: Seq<char>) -> bool {
    match d.uuid() {
        Some(u) => normalize_uuid_spec(u) == wanted,
        None => false,
    }
}

pub open spec fn uri_matches(d: PrinterEntryView, wanted: Seq<char>) -> bool {
    exists|i: int|
        0 <= i < destination_uris(d).len() && normalize_uri_spec(#[trigger] destination_uris(d)[i])
            == wanted
}

pub open spec fn endpoint_matches_spec(d: PrinterEntryView, host: Seq<char>, port: u16) -> bool {
    exists|i: int|
        0 <= i < destination_uris(d).len() && (match uri_endpoint_spec(
            #[trigger] destination_uris(d)[i],
        ) {
            Some((h, p)) => p == port && hosts_match_spec(h, host),
            None => false,
        })
}

pub open spec fn resource_names_printer_spec(d: PrinterEntryView, name: Seq<char>) -> bool {
    (exists|i: int|
        0 <= i < destination_uris(d).len() && (match last_path_segment_spec(
            #[trigger] destination_uris(d)[i],
        ) {
            Some(s) => eq_ignore_case(s, name),
            None => false,
        })) || eq_ignore_case(queue_name_spec(d.id), name)
}

pub open spec fn name_matches(d: PrinterEntryView, name: Seq<char>) -> bool {
    eq_ignore_case(queue_name_spec(d.id), name)
}

/// The first destination for which `f` holds.
pub open spec fn first_where(ds: Seq<PrinterEntryView>, f: spec_fn(PrinterEntryView) -> bool) -> Option<
    int,
>
    decreases ds.len(),
{
    if ds.len() == 0 {
        None
    } else if f(ds[0]) {
        Some(0)
    } else {
        match first_where(ds.drop_first(), f) {
            Some(i) => Some(i + 1),
            None => None,
        }
    }
}

/// A receipt as plain values.
pub struct PendingView {
    pub name: Seq<char>,
    pub uri: Option<Seq<char>>,
    pub uuid: Option<Seq<char>>,
    pub endpoint: Option<(Seq<char>, u16)>,
}

pub open spec fn pending_view(p: PendingPaConfiguration) -> PendingView {
    PendingView {
        name: p.configured_printer_name@,
        uri: opt_view(p.expected_printer_uri),
        uuid: opt_view(p.expected_printer_uuid),
        endpoint: match p.application_endpoint {
            Some((h, port)) => Some((h@, port)),
            None => None,
        },
    }
}

/// The destination a created printer became, by how conclusive the
/// evidence is: the UUID the application reported; the exact printer URI;
/// the application's own endpoint together with the queue name; and only
/// then the queue name alone. A display name is never enough.
pub open spec fn find_destination_spec(p: PendingView, ds: Seq<PrinterEntryView>) -> Option<int> {
    let by_uuid = match p.uuid {
        Some(u) => first_where(ds, |d: PrinterEntryView| uuid_matches(d, normalize_uuid_spec(u))),
        None => None,
    };
    let by_uri = match p.uri {
        Some(u) => first_where(ds, |d: PrinterEntryView| uri_matches(d, normalize_uri_spec(u))),
        None => None,
    };
    let by_endpoint = match p.endpoint {
        Some((h, port)) => first_where(
            ds,
            |d: PrinterEntryView| endpoint_matches_spec(d, h, port) && resource_names_printer_spec(
                d,
                p.name,
            ),
        ),
        None => None,
    };
    if by_uuid is Some {
        by_uuid
    } else if by_uri is Some {
        by_uri
    } else if by_endpoint is Some {
        by_endpoint
    } else {
        first_where(ds, |d: PrinterEntryView| name_matches(d, p.name))
    }
}

/// Which evidence a search goes by.
#[derive(Clone, Copy, Debug, PartialEq, Eq, Structural)]
pub enum Evidence {
    Uuid,
    Uri,
    Endpoint,
    Name,
}

/// Whether a destination shows the evidence of one kind for a receipt.
pub open spec fn shows(kind: Evidence, p: PendingView, d: PrinterEntryView) -> bool {
    match kind {
        Evidence::Uuid => match p.uuid {
            Some(u) => uuid_matches(d, normalize_uuid_spec(u)),
            None => false,
        },
        Evidence::Uri => match p.uri {
            Some(u) => uri_matches(d, normalize_uri_spec(u)),
            None => false,
        },
        Evidence::Endpoint => match p.endpoint {
            Some((h, port)) => endpoint_matches_spec(d, h, port) && resource_names_printer_spec(
                d,
                p.name,
            ),
            None => false,
        },
        Evidence::Name => name_matches(d, p.name),
    }
}

pub proof fn lemma_first_where_skip(
    ds: Seq<PrinterEntryView>,
    f: spec_fn(PrinterEntryView) -> bool,
    i: int,
)
    requires
        0 <= i <= ds.len(),
        forall|j: int| 0 <= j < i ==> !f(#[trigger] ds[j]),
    ensures
        first_where(ds, f) == match first_where(ds.skip(i), f) {
            Some(k) => Some(k + i),
            None => None::<int>,
        },
    decreases i,
{
    if i == 0 {
        assert(ds.skip(0) =~= ds);
    } else {
        assert forall|j: int| 0 <= j < i - 1 implies !f(#[trigger] ds.drop_first()[j]) by {
            assert(ds.drop_first()[j] == ds[j + 1]);
        }
        lemma_first_where_skip(ds.drop_first(), f, i - 1);
        assert(ds.drop_first().skip(i - 1) =~= ds.skip(i));
        assert(!f(ds[0]));
    }
}

fn uri_pair(d: &PrinterEntry) -> (r: (Option<&str>, Option<&str>))
    ensures
        destination_uris(d@) == (match r.0 {
            Some(u) => seq![u@],
            None => Seq::empty(),
        }) + (match r.1 {
            Some(u) => seq![u@],
            None => Seq::empty(),
        }),
{
    (d.printer_uri(), d.device_uri())
}

fn shows_exec(kind: Evidence, pending: &PendingPaConfiguration, d: &PrinterEntry) -> (r: bool)
    ensures
        r == shows(kind, pending_view(*pending), d@),
{
    let ghost uris = destination_uris(d@);
    let (a, b) = uri_pair(d);
    match kind {
        Evidence::Uuid => match &pending.expected_printer_uuid {
            Some(u) => match d.printer_uuid() {
                Some(v) => eq_vec(&normalize_uuid(v), &normalize_uuid(u.as_str())),
                None => false,
            },
            None => false,
        },
        Evidence::Uri => match &pending.expected_printer_uri {
            Some(u) => {
                let wanted = normalize_uri(u.as_str());
                let hit_a = match a {
                    Some(x) => eq_vec(&normalize_uri(x), &wanted),
                    None => false,
                };
                let hit_b = match b {
                    Some(x) => eq_vec(&normalize_uri(x), &wanted),
                    None => false,
                };
                proof {
                    let w = normalize_uri_spec(u@);
                    if hit_a {
                        assert(normalize_uri_spec(uris[0]) == w);
                    }
                    if hit_b {
                        let k = uris.len() - 1;
                        assert(normalize_uri_spec(uris[k]) == w);
                    }
                    if uri_matches(d@, w) {
                        let i = choose|i: int|
                            0 <= i < uris.len() && normalize_uri_spec(#[trigger] uris[i]) == w;
                        if a is Some && i == 0 {
                        } else {
                            assert(b is Some);
                        }
                    }
                }
                hit_a || hit_b
            },
            None => false,
        },
        Evidence::Endpoint => match &pending.application_endpoint {
            Some((host, port)) => {
                let at = |x: Option<&str>| -> (hit: bool)
                    ensures
                        hit == match x {
                            Some(u) => match uri_endpoint_spec(u@) {
                                Some((h, p)) => p == *port && hosts_match_spec(h, host@),
                                None => false,
                            },
                            None => false,
                        },
                    {
                        match x {
                            Some(u) => match uri_endpoint(u) {
                                Some((h, p)) => p == *port && hosts_match(&h, host.as_str()),
                                None => false,
                            },
                            None => false,
                        }
                    };
                let named = |x: Option<&str>| -> (hit: bool)
                    ensures
                        hit == match x {
                            Some(u) => match last_path_segment_spec(u@) {
                                Some(s) => eq_ignore_case(s, pending.configured_printer_name@),
                                None => false,
                            },
                            None => false,
                        },
                    {
                        match x {
                            Some(u) => match last_path_segment(u) {
                                Some(s) => crate::text::str_eq_ignore_case(
                                    s.as_str(),
                                    pending.configured_printer_name.as_str(),
                                ),
                                None => false,
                            },
                            None => false,
                        }
                    };
                let served = at(a) || at(b);
                let by_name = named(a) || named(b) || eq_ignore_case_vec(
                    &queue_name(d),
                    &chars_of(pending.configured_printer_name.as_str()),
                );
                proof {
                    let h = host@;
                    let nm = pending.configured_printer_name@;
                    if a is Some {
                        assert(uris[0] == a->0@);
                    }
                    if b is Some {
                        assert(uris[uris.len() - 1] == b->0@);
                    }
                    if endpoint_matches_spec(d@, h, *port) {
                        let i = choose|i: int|
                            0 <= i < uris.len() && (match uri_endpoint_spec(#[trigger] uris[i]) {
                                Some((hh, pp)) => pp == *port && hosts_match_spec(hh, h),
                                None => false,
                            });
                        if a is Some && i == 0 {
                        } else {
                            assert(b is Some);
                        }
                    }
                    if exists|i: int|
                        0 <= i < uris.len() && (match last_path_segment_spec(#[trigger] uris[i]) {
                            Some(s) => eq_ignore_case(s, nm),
                            None => false,
                        }) {
                        let i = choose|i: int|
                            0 <= i < uris.len() && (match last_path_segment_spec(
                                #[trigger] uris[i],
                            ) {
                                Some(s) => eq_ignore_case(s, nm),
                                None => false,
                            });
                        if a is Some && i == 0 {
                        } else {
                            assert(b is Some);
                        }
                    }
                }
                served && by_name
            },
            None => false,
        },
        Evidence::Name => eq_ignore_case_vec(
            &queue_name(d),
            &chars_of(pending.configured_printer_name.as_str()),
        ),
    }
}

/// The first destination that shows one kind of evidence.
fn first_showing(kind: Evidence, pending: &PendingPaConfiguration, ds: &Vec<PrinterEntry>) -> (r:
    Option<usize>)
    ensures
        match r {
            Some(i) => i < ds.len() && first_where(
                entries_view(ds@),
                |d: PrinterEntryView| shows(kind, pending_view(*pending), d),
            ) == Some(i as int),
            None => first_where(
                entries_view(ds@),
                |d: PrinterEntryView| shows(kind, pending_view(*pending), d),
            ) is None,
        },
{
    let ghost f = |d: PrinterEntryView| shows(kind, pending_view(*pending), d);
    let ghost all = entries_view(ds@);
    let mut i: usize = 0;
    while i < ds.len()
        invariant
            i <= ds.len(),
            all == entries_view(ds@),
            all.len() == ds.len(),
            f == (|d: PrinterEntryView| shows(kind, pending_view(*pending), d)),
            forall|j: int| 0 <= j < i ==> !f(#[trigger] all[j]),
        decreases ds.len() - i,
    {
        assert(all[i as int] == ds@[i as int]@);
        if shows_exec(kind, pending, &ds[i]) {
            proof {
                lemma_first_where_skip(all, f, i as int);
                assert(all.skip(i as int)[0] == all[i as int]);
            }
            return Some(i);
        }
        i += 1;
    }
    proof {
        lemma_first_where_skip(all, f, i as int);
        assert(all.skip(i as int) =~= Seq::<PrinterEntryView>::empty());
    }
    None
}

/// Finds the destination that corresponds to a created printer.
pub fn find_destination<'a>(pending: &PendingPaConfiguration, destinations: &'a Vec<PrinterEntry>) -> (r:
    Option<&'a PrinterEntry>)
    ensures
        match r {
            Some(d) => find_destination_spec(pending_view(*pending), entries_view(destinations@))
                matches Some(i) && 0 <= i < destinations.len() && *d == destinations@[i],
            None => find_destination_spec(
                pending_view(*pending),
                entries_view(destinations@),
            ) is None,
        },
{
    let ghost p = pending_view(*pending);
    let ghost ds = entries_view(destinations@);
    let by_uuid = first_showing(Evidence::Uuid, pending, destinations);
    let by_uri = first_showing(Evidence::Uri, pending, destinations);
    let by_endpoint = first_showing(Evidence::Endpoint, pending, destinations);
    let by_name = first_showing(Evidence::Name, pending, destinations);
    proof {
        match p.uuid {
            Some(u) => assert(first_where(ds, |d: PrinterEntryView| shows(Evidence::Uuid, p, d))
                == first_where(ds, |d: PrinterEntryView| uuid_matches(d, normalize_uuid_spec(u))))
                by {
                assert((|d: PrinterEntryView| shows(Evidence::Uuid, p, d)) =~= (|d: PrinterEntryView|
                    uuid_matches(d, normalize_uuid_spec(u))));
            },
            None => assert(first_where(ds, |d: PrinterEntryView| shows(Evidence::Uuid, p, d))
                is None) by {
                lemma_first_where_never(ds, |d: PrinterEntryView| shows(Evidence::Uuid, p, d));
            },
        }
        match p.uri {
            Some(u) => assert(first_where(ds, |d: PrinterEntryView| shows(Evidence::Uri, p, d))
                == first_where(ds, |d: PrinterEntryView| uri_matches(d, normalize_uri_spec(u))))
                by {
                assert((|d: PrinterEntryView| shows(Evidence::Uri, p, d)) =~= (|d: PrinterEntryView|
                    uri_matches(d, normalize_uri_spec(u))));
            },
            None => assert(first_where(ds, |d: PrinterEntryView| shows(Evidence::Uri, p, d))
                is None) by {
                lemma_first_where_never(ds, |d: PrinterEntryView| shows(Evidence::Uri, p, d));
            },
        }
        match p.endpoint {
            Some((h, port)) => assert(first_where(
                ds,
                |d: PrinterEntryView| shows(Evidence::Endpoint, p, d),
            ) == first_where(
                ds,
                |d: PrinterEntryView| endpoint_matches_spec(d, h, port)
                    && resource_names_printer_spec(d, p.name),
            )) by {
                assert((|d: PrinterEntryView| shows(Evidence::Endpoint, p, d)) =~= (|
                    d: PrinterEntryView,
                | endpoint_matches_spec(d, h, port) && resource_names_printer_spec(d, p.name)));
            },
            None => assert(first_where(ds, |d: PrinterEntryView| shows(Evidence::Endpoint, p, d))
                is None) by {
                lemma_first_where_never(ds, |d: PrinterEntryView| shows(Evidence::Endpoint, p, d));
            },
        }
        assert((|d: PrinterEntryView| shows(Evidence::Name, p, d)) =~= (|d: PrinterEntryView|
            name_matches(d, p.name)));
    }
    let chosen = if by_uuid.is_some() {
        by_uuid
    } else if by_uri.is_some() {
        by_uri
    } else if by_endpoint.is_some() {
        by_endpoint
    } else {
        by_name
    };
    match chosen {
        Some(i) => Some(&destinations[i]),
        None => None,
    }
}

pub proof fn lemma_first_where_never(ds: Seq<PrinterEntryView>, f: spec_fn(PrinterEntryView) -> bool)
    requires
        forall|d: PrinterEntryView| !#[trigger] f(d),
    ensures
        first_where(ds, f) is None,
    decreases ds.len(),
{
    if ds.len() > 0 {
        lemma_first_where_never(ds.drop_first(), f);
    }
}

/// Describes an attempt for a log line: the identifiers that would explain
/// afterwards what became of it.
pub fn describe(pending: &PendingPaConfiguration) -> (r: String)
    ensures
        r@ == "operation "@ + pending.operation_id@ + " for candidate "@ + pending.candidate_id@
            + " of printer "@ + pending.physical_printer_id@ + " in application "@
            + pending.printer_application_id@,
{
    let mut out: Vec<char> = Vec::new();
    push_str(&mut out, "operation ");
    push_str(&mut out, pending.operation_id.as_str());
    push_str(&mut out, " for candidate ");
    push_str(&mut out, pending.candidate_id.as_str());
    push_str(&mut out, " of printer ");
    push_str(&mut out, pending.physical_printer_id.as_str());
    push_str(&mut out, " in application ");
    push_str(&mut out, pending.printer_application_id.as_str());
    string_of(out)
}

/// Whether two attempts differ in nothing but their state.
pub open spec fn same_attempt(a: PendingPaConfiguration, b: PendingPaConfiguration) -> bool {
    &&& a.operation_id == b.operation_id
    &&& a.printer_application_id == b.printer_application_id
    &&& a.physical_printer_id == b.physical_printer_id
    &&& a.candidate_id == b.candidate_id
    &&& a.configured_printer_name == b.configured_printer_name
    &&& a.expected_printer_uri == b.expected_printer_uri
    &&& a.expected_printer_uuid == b.expected_printer_uuid
    &&& a.application_endpoint == b.application_endpoint
    &&& a.web_interface_uri == b.web_interface_uri
    &&& a.created_at_ms == b.created_at_ms
}

/// What reconciling does to one attempt's state: one still waiting is
/// matched to the destination that shows it, else given up on once its
/// advertisement is overdue, else left waiting; any other stays.
pub open spec fn reconciled(
    before: PendingPaConfiguration,
    after: PendingConfigurationState,
    destinations: Seq<PrinterEntryView>,
    now_ms: u64,
) -> bool {
    if !(before.state is AwaitingAdvertisement) {
        after == before.state
    } else {
        match find_destination_spec(pending_view(before), destinations) {
            Some(i) => after matches PendingConfigurationState::Reconciled { destination_id } && destination_id@
                == destinations[i].id,
            None => if now_ms >= before.created_at_ms && now_ms - before.created_at_ms >= ADVERTISEMENT_TIMEOUT_MS {
                after is ManualActionRequired
            } else {
                after is AwaitingAdvertisement
            },
        }
    }
}

/// Whether reconciling settles this attempt.
pub open spec fn settles(before: PendingPaConfiguration, destinations: Seq<PrinterEntryView>, now_ms: u64) -> bool {
    &&& before.state is AwaitingAdvertisement
    &&& (find_destination_spec(pending_view(before), destinations) is Some || (now_ms >= before.created_at_ms
        && now_ms - before.created_at_ms >= ADVERTISEMENT_TIMEOUT_MS))
}

/// Matches the attempts still waiting against the destinations now known,
/// and gives up on those whose printer was created but never advertised.
/// Says whether any attempt changed.
pub fn reconcile_pending(pending: &mut Vec<PendingPaConfiguration>, destinations: &Vec<PrinterEntry>, now_ms: u64) -> (changed:
    bool)
    ensures
        final(pending)@.len() == old(pending)@.len(),
        forall|k: int| 0 <= k < old(pending)@.len() ==> same_attempt(old(pending)@[k], #[trigger] final(pending)@[k])
            && reconciled(old(pending)@[k], final(pending)@[k].state, entries_view(destinations@), now_ms),
        changed == exists|k: int| 0 <= k < old(pending)@.len() && settles(#[trigger] old(pending)@[k], entries_view(destinations@), now_ms),
{
    let ghost before = pending@;
    let ghost ds = entries_view(destinations@);
    let mut rest: Vec<PendingPaConfiguration> = Vec::new();
    std::mem::swap(&mut rest, pending);
    let mut done: Vec<PendingPaConfiguration> = Vec::new();
    let mut changed = false;
    while rest.len() > 0
        invariant
            done@.len() + rest@.len() == before.len(),
            rest@ == before.skip(done@.len() as int),
            ds == entries_view(destinations@),
            forall|k: int| 0 <= k < done@.len() ==> same_attempt(before[k], #[trigger] done@[k]) && reconciled(before[k], done@[k].state, ds, now_ms),
            changed == exists|k: int| 0 <= k < done@.len() && settles(#[trigger] before[k], ds, now_ms),
        decreases rest@.len(),
    {
        let ghost n: int = done@.len() as int;
        let mut attempt = rest.remove(0);
        proof {
            assert(attempt == before[n as int]);
            assert(rest@ =~= before.skip(n + 1));
        }
        let ghost original = attempt;
        if attempt.state.is_awaiting() {
            match find_destination(&attempt, destinations) {
                Some(destination) => {
                    attempt.state = PendingConfigurationState::Reconciled {
                        destination_id: string_of(chars_of(destination.id.as_str())),
                    };
                    changed = true;
                },
                None => {
                    if advertisement_overdue(&attempt, now_ms) {
                        attempt.state = PendingConfigurationState::ManualActionRequired;
                        changed = true;
                    }
                },
            }
        }
        let ghost settled = settles(original, ds, now_ms);
        done.push(attempt);
        proof {
            assert(done@[n as int] == attempt);
            assert forall|k: int| 0 <= k < done@.len() implies same_attempt(before[k], #[trigger] done@[k]) && reconciled(before[k], done@[k].state, ds, now_ms) by {
                if k < n {
                    assert(done@[k] == done@.drop_last()[k]);
                }
            }
            if exists|k: int| 0 <= k < done@.len() && settles(#[trigger] before[k], ds, now_ms) {
                let k = choose|k: int| 0 <= k < done@.len() && settles(#[trigger] before[k], ds, now_ms);
                if k == n {
                    assert(settled);
                }
            }
            if settled {
                assert(settles(before[n as int], ds, now_ms));
            }
        }
    }
    *pending = done;
    changed
}

} // verus!
