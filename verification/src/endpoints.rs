//! Where a printer that advertises itself over DNS-SD actually answers, and
//! how a destination learns it: the advertised service a destination's
//! device URI names, and the options that record a resolved endpoint.

use vstd::prelude::*;
use crate::devices::{percent_decode_lossy, percent_decoded_lossy};
use crate::entry::{PrinterEntry, PrinterEntryView, with_option};
use crate::text::{chars_of, decimal, decimal_exec, eq_vec, lower, lower_vec, string_of, trim, trim_char_end, trim_char_end_vec, trim_vec};
use crate::weburl::{parse_url, parsed_url};

verus! {

/// Where a resolved DNS-SD service answers.
#[derive(Clone, Debug, PartialEq, Eq)]
pub struct DnssdDeviceEndpoint {
    pub hostname: String,
    pub port: u16,
    pub address: Option<String>,
    pub is_local: bool,
}

/// A resolved endpoint as plain values.
pub struct DnssdDeviceEndpointView {
    pub hostname: Seq<char>,
    pub port: u16,
    pub address: Option<Seq<char>>,
    pub is_local: bool,
}

impl View for DnssdDeviceEndpoint {
    type V = DnssdDeviceEndpointView;

    open spec fn view(&self) -> DnssdDeviceEndpointView {
        DnssdDeviceEndpointView {
            hostname: self.hostname@,
            port: self.port,
            address: match self.address {
                Some(a) => Some(a@),
                None => None,
            },
            is_local: self.is_local,
        }
    }
}

/// How a flag is written into an option: `true` or `false`.
pub open spec fn flag_text(b: bool) -> Seq<char> {
    if b {
        "true"@
    } else {
        "false"@
    }
}

/// The options of a destination once an endpoint is recorded in them: the
/// DNS-SD host and port, whether it is local, and its address where known.
pub open spec fn endpoint_applied(
    options: Seq<(Seq<char>, Seq<char>)>,
    endpoint: DnssdDeviceEndpointView,
) -> Seq<(Seq<char>, Seq<char>)> {
    let host = with_option(options, "dnssd-hostname"@, endpoint.hostname);
    let port = with_option(host, "dnssd-port"@, decimal(endpoint.port as nat));
    let local = with_option(port, "endpoint-is-local"@, flag_text(endpoint.is_local));
    match endpoint.address {
        Some(address) => with_option(local, "endpoint-address"@, address),
        None => local,
    }
}

/// A destination with an endpoint recorded in it.
pub open spec fn with_endpoint(entry: PrinterEntryView, endpoint: DnssdDeviceEndpointView) -> PrinterEntryView {
    PrinterEntryView { options: endpoint_applied(entry.options, endpoint), ..entry }
}

/// The DNS-SD service a destination's device URI names: the URI's host,
/// percent-decoded, trimmed of white space and trailing dots, lower-cased.
pub open spec fn service_name_of(entry: PrinterEntryView) -> Option<Seq<char>> {
    match entry.device_uri() {
        None => None,
        Some(uri) => match parsed_url(uri) {
            None => None,
            Some(url) => match url.host {
                None => None,
                Some(host) => Some(lower(trim_char_end(trim(percent_decoded_lossy(host)), '.'))),
            },
        },
    }
}

impl DnssdDeviceEndpoint {
    /// A copy of this endpoint.
    pub fn copy(&self) -> (r: Self)
        ensures
            r@ == self@,
    {
        DnssdDeviceEndpoint {
            hostname: string_of(chars_of(self.hostname.as_str())),
            port: self.port,
            address: match &self.address {
                Some(a) => Some(string_of(chars_of(a.as_str()))),
                None => None,
            },
            is_local: self.is_local,
        }
    }

    /// Records this endpoint in a destination's options.
    pub fn apply_to(&self, printer: &mut PrinterEntry)
        ensures
            final(printer)@ == with_endpoint(old(printer)@, self@),
    {
        printer.set_option("dnssd-hostname", string_of(chars_of(self.hostname.as_str())));
        printer.set_option("dnssd-port", string_of(decimal_exec(self.port as u64)));
        let local = if self.is_local {
            "true"
        } else {
            "false"
        };
        printer.set_option("endpoint-is-local", string_of(chars_of(local)));
        match &self.address {
            Some(address) => printer.set_option("endpoint-address", string_of(chars_of(address.as_str()))),
            None => {},
        }
    }
}

/// The DNS-SD service a destination's device URI names, if it names one.
pub fn device_service_name(printer: &PrinterEntry) -> (r: Option<String>)
    ensures
        match r {
            Some(name) => service_name_of(printer@) == Some(name@),
            None => service_name_of(printer@) is None,
        },
{
    let uri = match printer.device_uri() {
        Some(uri) => uri,
        None => return None,
    };
    let url = match parse_url(uri) {
        Some(url) => url,
        None => return None,
    };
    let host = match &url.host {
        Some(host) => host,
        None => return None,
    };
    let decoded = percent_decode_lossy(host.as_str());
    let trimmed = trim_vec(&chars_of(decoded.as_str()));
    let undotted = trim_char_end_vec(&trimmed, '.');
    Some(string_of(lower_vec(&undotted)))
}

/// The endpoint last recorded for a service.
pub open spec fn endpoint_in(
    endpoints: Seq<(Seq<char>, DnssdDeviceEndpointView)>,
    service: Seq<char>,
) -> Option<DnssdDeviceEndpointView>
    decreases endpoints.len(),
{
    if endpoints.len() == 0 {
        None
    } else if endpoints.last().0 == service {
        Some(endpoints.last().1)
    } else {
        endpoint_in(endpoints.drop_last(), service)
    }
}

pub open spec fn endpoints_view(endpoints: Seq<(String, DnssdDeviceEndpoint)>) -> Seq<(Seq<char>, DnssdDeviceEndpointView)> {
    endpoints.map_values(|e: (String, DnssdDeviceEndpoint)| (e.0@, e.1@))
}

/// The endpoint recorded for a service, if any.
pub fn endpoint_lookup<'a>(endpoints: &'a Vec<(String, DnssdDeviceEndpoint)>, service: &str) -> (r: Option<
    &'a DnssdDeviceEndpoint,
>)
    ensures
        match r {
            Some(e) => endpoint_in(endpoints_view(endpoints@), service@) == Some(e@),
            None => endpoint_in(endpoints_view(endpoints@), service@) is None,
        },
{
    let ghost all = endpoints_view(endpoints@);
    let wanted = chars_of(service);
    let mut k: usize = endpoints.len();
    proof {
        assert(all.take(k as int) =~= all);
    }
    while k > 0
        invariant
            k <= endpoints@.len(),
            all == endpoints_view(endpoints@),
            wanted@ == service@,
            endpoint_in(all, service@) == endpoint_in(all.take(k as int), service@),
        decreases k,
    {
        proof {
            assert(all.take(k as int).drop_last() =~= all.take(k - 1));
        }
        if eq_vec(&chars_of(endpoints[k - 1].0.as_str()), &wanted) {
            return Some(&endpoints[k - 1].1);
        }
        k -= 1;
    }
    None
}

/// Whether an endpoint entry is about another service than `gone`.
pub open spec fn endpoint_not_for(gone: Seq<char>) -> spec_fn((Seq<char>, DnssdDeviceEndpointView)) -> bool {
    |p: (Seq<char>, DnssdDeviceEndpointView)| p.0 != gone
}

proof fn lemma_endpoint_filter(m: Seq<(Seq<char>, DnssdDeviceEndpointView)>, gone: Seq<char>, service: Seq<char>)
    ensures
        endpoint_in(m.filter(endpoint_not_for(gone)), service) == if service == gone {
            None
        } else {
            endpoint_in(m, service)
        },
    decreases m.len(),
{
    reveal(Seq::filter);
    if m.len() > 0 {
        lemma_endpoint_filter(m.drop_last(), gone, service);
        let sub = m.drop_last().filter(endpoint_not_for(gone));
        if endpoint_not_for(gone)(m.last()) {
            assert(m.filter(endpoint_not_for(gone)) == sub.push(m.last()));
            assert(sub.push(m.last()).drop_last() =~= sub);
        } else {
            assert(m.filter(endpoint_not_for(gone)) == sub);
        }
    }
}

/// The endpoints without the one recorded for `service`.
pub fn without_endpoint(endpoints: &Vec<(String, DnssdDeviceEndpoint)>, service: &str) -> (r: Vec<
    (String, DnssdDeviceEndpoint),
>)
    ensures
        forall|other: Seq<char>| #[trigger] endpoint_in(endpoints_view(r@), other) == if other == service@ {
            None
        } else {
            endpoint_in(endpoints_view(endpoints@), other)
        },
{
    let ghost all = endpoints_view(endpoints@);
    let mut kept: Vec<(String, DnssdDeviceEndpoint)> = Vec::new();
    let wanted = chars_of(service);
    let mut i: usize = 0;
    proof {
        reveal(Seq::filter);
        assert(endpoints_view(kept@) =~= all.take(0).filter(endpoint_not_for(service@)));
    }
    while i < endpoints.len()
        invariant
            i <= endpoints@.len(),
            all == endpoints_view(endpoints@),
            wanted@ == service@,
            endpoints_view(kept@) == all.take(i as int).filter(endpoint_not_for(service@)),
        decreases endpoints.len() - i,
    {
        proof {
            reveal(Seq::filter);
            assert(all.take(i + 1).drop_last() =~= all.take(i as int));
        }
        if !eq_vec(&chars_of(endpoints[i].0.as_str()), &wanted) {
            let ghost prev = kept@;
            kept.push((string_of(chars_of(endpoints[i].0.as_str())), endpoints[i].1.copy()));
            proof {
                assert(endpoint_not_for(service@)(all[i as int]));
                assert(endpoints_view(kept@) =~= endpoints_view(prev).push(all[i as int]));
            }
        } else {
            proof {
                assert(!endpoint_not_for(service@)(all[i as int]));
            }
        }
        i += 1;
    }
    proof {
        assert(all.take(endpoints@.len() as int) =~= all);
        assert forall|other: Seq<char>| #[trigger] endpoint_in(endpoints_view(kept@), other) == if other == service@ {
            None
        } else {
            endpoint_in(all, other)
        } by {
            lemma_endpoint_filter(all, service@, other);
        }
    }
    kept
}

} // verus!
