//! `Get-System-Attributes`: asking a Printer Application what it is and
//! what it can do, and what the answer makes of it.

use vstd::prelude::*;
use crate::application::{
    PrinterApplication, PrinterApplicationCapabilities, PrinterApplicationState,
};
use crate::client::{IppStatus, TransportFailure};
use crate::ipp::{copy_opt, opt_view, same_opt};
use crate::scan::PrinterApplicationScanState;
use crate::text::{
    chars_of, push_str, sorted_distinct, sorted_distinct_u16, string_of, strings_of,
    strictly_increasing, strictly_sorted, trim, trim_str, eq_vec,
};

verus! {

/// The attributes a probe asks for.
pub const SYSTEM_ATTRIBUTES: [&'static str; 8] = [
    "system-name",
    "system-make-and-model",
    "operations-supported",
    "system-xri-supported",
    "system-mandatory-printer-attributes",
    "printer-creation-attributes-supported",
    "printer-service-type-supported",
    "smi55357-device-uri-schemes-supported",
];

/// One way to reach a system service, as it reports it.
#[derive(Clone, Debug, PartialEq, Eq)]
pub struct SystemEndpoint {
    pub uri: String,
    pub authentication: Option<String>,
    pub security: Option<String>,
}

pub open spec fn endpoint_view(e: SystemEndpoint) -> (Seq<char>, Option<Seq<char>>, Option<Seq<char>>) {
    (e.uri@, opt_view(e.authentication), opt_view(e.security))
}

pub open spec fn endpoints_view(es: Seq<SystemEndpoint>) -> Seq<(Seq<char>, Option<Seq<char>>, Option<Seq<char>>)> {
    es.map_values(|e: SystemEndpoint| endpoint_view(e))
}

/// What a Printer Application reported about itself.
#[derive(Clone, Debug)]
pub struct SystemProbe {
    pub make_and_model: Option<String>,
    pub endpoints: Vec<SystemEndpoint>,
    pub capabilities: PrinterApplicationCapabilities,
}

/// Why a probe produced nothing.
#[derive(Clone, Debug, PartialEq, Eq)]
pub enum ProbeError {
    AuthenticationRequired,
    Unreachable { why: String },
    Failed { why: String },
}

/// What a `Get-System-Attributes` answer carried, attribute by attribute.
#[derive(Clone, Debug)]
pub struct SystemAttributes {
    pub status: IppStatus,
    /// The values of `operations-supported`; none when the attribute is missing.
    pub operations: Option<Vec<i32>>,
    pub mandatory_printer_attributes: Vec<String>,
    pub printer_creation_attributes_supported: Vec<String>,
    pub printer_service_types_supported: Vec<String>,
    pub device_uri_schemes_supported: Vec<String>,
    pub make_and_model: Option<String>,
    pub system_name: Option<String>,
    /// The `system-xri-supported` collections that carried a URI, in order.
    pub endpoints: Vec<SystemEndpoint>,
}

/// A failed request to the system service: a refusal for want of
/// permission asks for credentials; anything else is transient.
pub fn probe_error_from_transport(failure: TransportFailure) -> (r: ProbeError)
    ensures
        failure is PermissionDenied <==> r is AuthenticationRequired,
        !(failure is PermissionDenied) ==> r is Unreachable,
{
    match failure {
        TransportFailure::PermissionDenied { .. } => ProbeError::AuthenticationRequired,
        TransportFailure::DeviceUnreachable { why } => ProbeError::Unreachable { why },
        TransportFailure::Other { why } => ProbeError::Unreachable { why },
    }
}

/// The values of a keyword list, trimmed, without blanks, sorted, each once.
pub open spec fn keyword_set(values: Seq<Seq<char>>) -> Set<Seq<char>> {
    Set::new(|k: Seq<char>| k.len() > 0 && exists|i: int| 0 <= i < values.len() && trim(#[trigger] values[i]) == k)
}

/// Reads a multi-valued keyword or name attribute, dropping blank values.
pub fn keywords(values: &Vec<String>) -> (r: Vec<String>)
    ensures
        strictly_sorted(strings_of(r@)),
        forall|k: Seq<char>| strings_of(r@).contains(k) <==> keyword_set(strings_of(values@)).contains(k),
{
    let ghost all = strings_of(values@);
    let mut kept: Vec<String> = Vec::new();
    let mut i: usize = 0;
    while i < values.len()
        invariant
            i <= values.len(),
            all == strings_of(values@),
            forall|k: Seq<char>| strings_of(kept@).contains(k) <==> (k.len() > 0 && exists|j: int|
                0 <= j < i && trim(#[trigger] all[j]) == k),
        decreases values.len() - i,
    {
        let t = trim_str(values[i].as_str());
        let ghost before = strings_of(kept@);
        assert(all[i as int] == values@[i as int]@);
        if t.as_str().unicode_len() > 0 {
            kept.push(t);
            proof {
                assert(strings_of(kept@) =~= before.push(trim(all[i as int])));
                assert forall|k: Seq<char>| strings_of(kept@).contains(k) <==> (k.len() > 0
                    && exists|j: int| 0 <= j < i + 1 && trim(#[trigger] all[j]) == k) by {
                    crate::text::lemma_push_contains(before, trim(all[i as int]), k);
                }
            }
        } else {
            proof {
                assert forall|k: Seq<char>| strings_of(kept@).contains(k) <==> (k.len() > 0
                    && exists|j: int| 0 <= j < i + 1 && trim(#[trigger] all[j]) == k) by {
                    if k.len() > 0 && exists|j: int| 0 <= j < i + 1 && trim(#[trigger] all[j]) == k {
                        let j = choose|j: int| 0 <= j < i + 1 && trim(#[trigger] all[j]) == k;
                        assert(j != i);
                    }
                }
            }
        }
        i += 1;
    }
    sorted_distinct(kept)
}

/// The operation codes a list of integer values names: values outside the
/// range of an operation code are dropped; sorted, each once.
pub fn operation_codes(values: &Vec<i32>) -> (r: Vec<u16>)
    ensures
        strictly_increasing(r@),
        forall|op: u16| r@.contains(op) <==> values@.contains(op as i32),
{
    let mut codes: Vec<u16> = Vec::new();
    let mut i: usize = 0;
    while i < values.len()
        invariant
            i <= values.len(),
            forall|op: u16| codes@.contains(op) <==> values@.take(i as int).contains(op as i32),
        decreases values.len() - i,
    {
        let v = values[i];
        let ghost before = codes@;
        proof {
            assert(values@.take(i + 1) =~= values@.take(i as int).push(v));
        }
        if 0 <= v && v <= 65535 {
            codes.push(v as u16);
            proof {
                assert(codes@ == before.push(v as u16));
                assert forall|op: u16| codes@.contains(op) <==> values@.take(i + 1).contains(op as i32) by {
                    if codes@.contains(op) {
                        let k = choose|k: int| 0 <= k < codes@.len() && #[trigger] codes@[k] == op;
                        if k < before.len() {
                            assert(before[k] == op);
                            assert(before.contains(op));
                            assert(values@.take(i as int).contains(op as i32));
                            let m = choose|m: int| 0 <= m < i && #[trigger] values@.take(i as int)[m] == op as i32;
                            assert(values@.take(i + 1)[m] == op as i32);
                        } else {
                            assert(values@.take(i + 1)[i as int] == op as i32);
                        }
                    }
                    if values@.take(i + 1).contains(op as i32) {
                        let m = choose|m: int| 0 <= m < i + 1 && #[trigger] values@.take(i + 1)[m] == op as i32;
                        if m < i {
                            assert(values@.take(i as int)[m] == op as i32);
                            assert(values@.take(i as int).contains(op as i32));
                            assert(before.contains(op));
                            let k = choose|k: int| 0 <= k < before.len() && #[trigger] before[k] == op;
                            assert(codes@[k] == op);
                        } else {
                            assert(codes@[before.len() as int] == op);
                        }
                    }
                }
            }
        } else {
            proof {
                assert forall|op: u16| codes@.contains(op) <==> values@.take(i + 1).contains(op as i32) by {
                    if values@.take(i + 1).contains(op as i32) {
                        let m = choose|m: int| 0 <= m < i + 1 && #[trigger] values@.take(i + 1)[m] == op as i32;
                        if m < i {
                            assert(values@.take(i as int)[m] == op as i32);
                        }
                    }
                    if codes@.contains(op) {
                        let m = choose|m: int| 0 <= m < i && #[trigger] values@.take(i as int)[m] == op as i32;
                        assert(values@.take(i + 1)[m] == op as i32);
                    }
                }
            }
        }
        i += 1;
    }
    assert(values@.take(values.len() as int) =~= values@);
    sorted_distinct_u16(&codes)
}

/// A text value, trimmed, when anything is left.
pub open spec fn optional_text(value: Option<Seq<char>>) -> Option<Seq<char>> {
    match value {
        Some(v) => if trim(v).len() > 0 {
            Some(trim(v))
        } else {
            None
        },
        None => None,
    }
}

fn optional_text_exec(value: &Option<String>) -> (r: Option<String>)
    ensures
        opt_view(r) == optional_text(opt_view(*value)),
{
    match value {
        Some(v) => {
            let t = trim_str(v.as_str());
            if t.as_str().unicode_len() > 0 {
                Some(t)
            } else {
                None
            }
        },
        None => None,
    }
}

/// The values of a sequence without repeats, each where it first occurs.
pub open spec fn first_seen<A>(s: Seq<A>) -> Seq<A>
    decreases s.len(),
{
    if s.len() == 0 {
        Seq::empty()
    } else if s.drop_last().contains(s.last()) {
        first_seen(s.drop_last())
    } else {
        first_seen(s.drop_last()).push(s.last())
    }
}

/// The endpoints without repeats, in the order first reported.
pub fn distinct_endpoints(endpoints: &Vec<SystemEndpoint>) -> (r: Vec<SystemEndpoint>)
    ensures
        endpoints_view(r@) == first_seen(endpoints_view(endpoints@)),
        forall|i: int, j: int|
            0 <= i < j < r@.len() ==> endpoint_view(#[trigger] r@[i]) != endpoint_view(#[trigger] r@[j]),
        forall|e| endpoints_view(endpoints@).contains(e) <==> endpoints_view(r@).contains(e),
{
    let mut out: Vec<SystemEndpoint> = Vec::new();
    let mut i: usize = 0;
    proof {
        assert(endpoints_view(endpoints@.take(0)) =~= Seq::empty());
        assert(endpoints_view(out@) =~= Seq::empty());
    }
    while i < endpoints.len()
        invariant
            i <= endpoints.len(),
            forall|a: int, b: int|
                0 <= a < b < out@.len() ==> endpoint_view(#[trigger] out@[a]) != endpoint_view(#[trigger] out@[b]),
            forall|e| endpoints_view(endpoints@.take(i as int)).contains(e) <==> endpoints_view(out@).contains(e),
            endpoints_view(out@) == first_seen(endpoints_view(endpoints@.take(i as int))),
        decreases endpoints.len() - i,
    {
        let e = &endpoints[i];
        let ghost ev = endpoint_view(*e);
        let ghost before = endpoints_view(out@);
        proof {
            assert(endpoints_view(endpoints@.take(i + 1)) =~= endpoints_view(endpoints@.take(i as int)).push(ev));
            assert(endpoints_view(endpoints@.take(i + 1)).drop_last() =~= endpoints_view(endpoints@.take(i as int)));
        }
        let mut seen = false;
        let mut k: usize = 0;
        while k < out.len()
            invariant
                k <= out.len(),
                before == endpoints_view(out@),
                ev == endpoint_view(*e),
                seen <==> exists|m: int| 0 <= m < k && #[trigger] before[m] == ev,
            decreases out.len() - k,
        {
            let same = eq_vec(&chars_of(out[k].uri.as_str()), &chars_of(e.uri.as_str())) && same_opt(&out[k].authentication, &e.authentication) && same_opt(&out[k].security, &e.security);
            assert(before[k as int] == endpoint_view(out@[k as int]));
            if same {
                assert(before[k as int] == ev);
                seen = true;
            }
            k += 1;
        }
        let ghost tv = endpoints_view(endpoints@.take(i as int));
        let ghost tv1 = endpoints_view(endpoints@.take(i + 1));
        proof {
            assert(tv1.last() == ev);
            if seen {
                let m = choose|m: int| 0 <= m < k && #[trigger] before[m] == ev;
                assert(before.contains(ev));
                assert(tv.contains(ev));
                assert(first_seen(tv1) == first_seen(tv));
            } else {
                if tv.contains(ev) {
                    assert(before.contains(ev));
                    let m = choose|m: int| 0 <= m < before.len() && before[m] == ev;
                    assert(before[m] == ev);
                }
                assert(first_seen(tv1) == first_seen(tv).push(ev));
            }
        }
        if !seen {
            out.push(SystemEndpoint {
                uri: string_of(chars_of(e.uri.as_str())),
                authentication: copy_opt(&e.authentication),
                security: copy_opt(&e.security),
            });
            proof {
                assert(endpoints_view(out@) =~= before.push(ev));
                assert forall|a: int, b: int|
                    0 <= a < b < out@.len() implies endpoint_view(#[trigger] out@[a]) != endpoint_view(#[trigger] out@[b]) by {
                    if b == out@.len() - 1 {
                        assert(endpoint_view(out@[a]) == before[a]);
                    }
                }
                assert forall|x| endpoints_view(endpoints@.take(i + 1)).contains(x) <==> endpoints_view(out@).contains(x) by {
                    lemma_push_contains_endpoint(endpoints_view(endpoints@.take(i as int)), ev, x);
                    lemma_push_contains_endpoint(before, ev, x);
                }
            }
        } else {
            proof {
                assert forall|x| endpoints_view(endpoints@.take(i + 1)).contains(x) <==> endpoints_view(out@).contains(x) by {
                    lemma_push_contains_endpoint(endpoints_view(endpoints@.take(i as int)), ev, x);
                }
            }
        }
        i += 1;
    }
    assert(endpoints@.take(endpoints.len() as int) =~= endpoints@);
    out
}

pub proof fn lemma_push_contains_endpoint(
    s: Seq<(Seq<char>, Option<Seq<char>>, Option<Seq<char>>)>,
    x: (Seq<char>, Option<Seq<char>>, Option<Seq<char>>),
    y: (Seq<char>, Option<Seq<char>>, Option<Seq<char>>),
)
    ensures
        s.push(x).contains(y) <==> (s.contains(y) || y == x),
{
    if s.push(x).contains(y) {
        let k = choose|k: int| 0 <= k < s.push(x).len() && #[trigger] s.push(x)[k] == y;
        if k < s.len() {
            assert(s[k] == y);
        }
    }
    if s.contains(y) {
        let k = choose|k: int| 0 <= k < s.len() && #[trigger] s[k] == y;
        assert(s.push(x)[k] == y);
    }
    if y == x {
        assert(s.push(x)[s.len() as int] == y);
    }
}

/// How a status that is not success ends a probe: a status asking for
/// credentials, or refusing them, means credentials are needed; any other
/// is a failure naming the status.
pub open spec fn asks_for_credentials(status: IppStatus) -> bool {
    status is ErrorNotAuthorized || status is ErrorForbidden || status is ErrorNotAuthenticated
}

/// Reads what a Printer Application reported about itself: the answer
/// must succeed and list its operations; capabilities follow from the
/// operations, keyword lists are cleaned up, and the make and model falls
/// back to the system name.
pub fn system_probe(attrs: &SystemAttributes) -> (r: Result<SystemProbe, ProbeError>)
    ensures
        !attrs.status.successful() && asks_for_credentials(attrs.status) ==> r == Err::<SystemProbe, ProbeError>(ProbeError::AuthenticationRequired),
        !attrs.status.successful() && !asks_for_credentials(attrs.status) ==> (r matches Err(ProbeError::Failed { why }) && why@ == "Get-System-Attributes returned status "@ + attrs.status.name_spec()@),
        attrs.status.successful() && attrs.operations is None ==> (r matches Err(ProbeError::Failed { why }) && why@ == "Get-System-Attributes response missing operations-supported"@),
        attrs.status.successful() && attrs.operations is Some ==> (r matches Ok(probe) && {
            &&& strictly_increasing(probe.capabilities.operations_supported@)
            &&& forall|op: u16| probe.capabilities.operations_supported@.contains(op) <==> attrs.operations->0@.contains(op as i32)
            &&& probe.capabilities.create_printer == probe.capabilities.operations_supported@.contains(crate::application::CREATE_PRINTER)
            &&& probe.capabilities.find_devices == probe.capabilities.operations_supported@.contains(crate::application::FIND_DEVICES)
            &&& probe.capabilities.find_drivers == probe.capabilities.operations_supported@.contains(crate::application::FIND_DRIVERS)
            &&& probe.capabilities.get_printers == probe.capabilities.operations_supported@.contains(crate::application::GET_PRINTERS)
            &&& forall|k: Seq<char>| strings_of(probe.capabilities.printer_creation_attributes_supported@).contains(k) <==> keyword_set(strings_of(attrs.printer_creation_attributes_supported@)).contains(k)
            &&& opt_view(probe.make_and_model) == match optional_text(opt_view(attrs.make_and_model)) {
                Some(m) => Some(m),
                None => optional_text(opt_view(attrs.system_name)),
            }
            &&& endpoints_view(probe.endpoints@) == first_seen(endpoints_view(attrs.endpoints@))
        }),
{
    if !attrs.status.is_successful() {
        match attrs.status {
            IppStatus::ErrorNotAuthorized | IppStatus::ErrorForbidden | IppStatus::ErrorNotAuthenticated => {
                return Err(ProbeError::AuthenticationRequired);
            },
            _ => {
                let mut why = chars_of("Get-System-Attributes returned status ");
                push_str(&mut why, attrs.status.name());
                return Err(ProbeError::Failed { why: string_of(why) });
            },
        }
    }
    let operations = match &attrs.operations {
        Some(values) => operation_codes(values),
        None => {
            return Err(ProbeError::Failed {
                why: string_of(chars_of("Get-System-Attributes response missing operations-supported")),
            });
        },
    };
    let mut capabilities = PrinterApplicationCapabilities::from_operations(operations);
    capabilities.mandatory_printer_attributes = keywords(&attrs.mandatory_printer_attributes);
    capabilities.printer_creation_attributes_supported = keywords(&attrs.printer_creation_attributes_supported);
    capabilities.printer_service_types_supported = keywords(&attrs.printer_service_types_supported);
    capabilities.device_uri_schemes_supported = keywords(&attrs.device_uri_schemes_supported);
    let make_and_model = match optional_text_exec(&attrs.make_and_model) {
        Some(m) => Some(m),
        None => optional_text_exec(&attrs.system_name),
    };
    Ok(SystemProbe { make_and_model, endpoints: distinct_endpoints(&attrs.endpoints), capabilities })
}

/// Classifies a Printer Application by what its capabilities allow.
pub open spec fn probed_state_spec(c: PrinterApplicationCapabilities) -> PrinterApplicationState {
    if c.automatic() {
        PrinterApplicationState::Ready
    } else if c.find_devices {
        PrinterApplicationState::DiscoveryOnly
    } else if c.operations_supported@.len() == 0 {
        PrinterApplicationState::Unsupported
    } else {
        PrinterApplicationState::ManualSetupOnly
    }
}

pub fn probed_state(capabilities: &PrinterApplicationCapabilities) -> (r: PrinterApplicationState)
    ensures
        r == probed_state_spec(*capabilities),
{
    if capabilities.supports_automatic_configuration() {
        PrinterApplicationState::Ready
    } else if capabilities.find_devices {
        PrinterApplicationState::DiscoveryOnly
    } else if capabilities.operations_supported.len() == 0 {
        PrinterApplicationState::Unsupported
    } else {
        PrinterApplicationState::ManualSetupOnly
    }
}

/// What a probe makes of an application: its state, from what it supports
/// or from why the probe failed, and what it reported about itself.
pub fn apply_probe_result(application: &mut PrinterApplication, result: Result<SystemProbe, ProbeError>)
    ensures
        match result {
            Ok(probe) => final(application).state == probed_state_spec(probe.capabilities)
                && final(application).capabilities == probe.capabilities
                && final(application).make_and_model == probe.make_and_model
                && final(application).endpoints@ == probe.endpoints@,
            Err(ProbeError::AuthenticationRequired) => final(application).state is AuthenticationRequired,
            Err(ProbeError::Unreachable { .. }) => final(application).state is Unreachable,
            Err(ProbeError::Failed { .. }) => final(application).state is Failed,
        },
        result is Err ==> final(application).capabilities == old(application).capabilities
            && final(application).make_and_model == old(application).make_and_model
            && final(application).endpoints@ == old(application).endpoints@,
        final(application).id == old(application).id,
        final(application).hostname == old(application).hostname,
        final(application).port == old(application).port,
        final(application).system_uri == old(application).system_uri,
{
    match result {
        Ok(probe) => {
            application.state = probed_state(&probe.capabilities);
            application.make_and_model = probe.make_and_model;
            application.endpoints = probe.endpoints;
            application.capabilities = probe.capabilities;
        },
        Err(ProbeError::AuthenticationRequired) => {
            application.state = PrinterApplicationState::AuthenticationRequired;
        },
        Err(ProbeError::Unreachable { .. }) => {
            application.state = PrinterApplicationState::Unreachable;
        },
        Err(ProbeError::Failed { .. }) => {
            application.state = PrinterApplicationState::Failed;
        },
    }
}

/// Whether an application has to be probed again before a scan: its
/// capabilities are missing, or it was never established.
pub fn needs_probe(application: &PrinterApplication) -> (r: bool)
    ensures
        r == (application.capabilities.operations_supported@.len() == 0
            || application.state is Discovered || application.state is Probing
            || application.state is Unreachable || application.state is Failed),
{
    application.capabilities.operations_supported.len() == 0 || match application.state {
        PrinterApplicationState::Discovered | PrinterApplicationState::Probing
        | PrinterApplicationState::Unreachable | PrinterApplicationState::Failed => true,
        _ => false,
    }
}

/// The scan state a failed probe leaves an application's round in.
pub fn probe_scan_state(error: &ProbeError) -> (r: PrinterApplicationScanState)
    ensures
        match *error {
            ProbeError::AuthenticationRequired => r is AuthenticationRequired,
            ProbeError::Unreachable { .. } => r is Unreachable,
            ProbeError::Failed { .. } => r is Failed,
        },
{
    match error {
        ProbeError::AuthenticationRequired => PrinterApplicationScanState::AuthenticationRequired,
        ProbeError::Unreachable { .. } => PrinterApplicationScanState::Unreachable,
        ProbeError::Failed { .. } => PrinterApplicationScanState::Failed,
    }
}

/// The identifier a failed probe is reported under: the application's own.
pub fn probe_failure_id(application_id: &str) -> (r: String)
    ensures
        r@ == application_id@,
{
    string_of(chars_of(application_id))
}

} // verus!
