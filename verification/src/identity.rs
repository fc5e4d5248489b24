//! Device reports turned into configuration candidates, and candidates from
//! every Printer Application grouped into one row per physical printer.
//!
//! A candidate's identity key is the first of its device UUID, serial
//! number, DNS-SD service, network endpoint (host and port) and device URI
//! that it has; candidates with the same key are one physical printer, and a
//! candidate without any key is a printer of its own.

use vstd::prelude::*;
use crate::devices::{DeviceEvidence, DeviceEvidenceView, DeviceTransport, PaDeviceObservation};
use crate::drivers::{PaDriverMatch, PaDriverMatchView};
use crate::ipp::{copy_opt, opt_view};
use crate::text::{chars_of, decimal, lex_lt, push_all, push_str, string_of};

verus! {

/// One way to reach a device, as reported by one Printer Application.
#[derive(Clone, Debug)]
pub struct PaDeviceEndpoint {
    /// The exact URI the owning application reported.
    pub device_uri: String,
    pub transport: DeviceTransport,
    /// Lower is preferred. Derived from the transport.
    pub preference: i32,
}

/// An endpoint as plain values.
pub struct PaDeviceEndpointView {
    pub device_uri: Seq<char>,
    pub transport: DeviceTransport,
    pub preference: i32,
}

impl View for PaDeviceEndpoint {
    type V = PaDeviceEndpointView;

    open spec fn view(&self) -> PaDeviceEndpointView {
        PaDeviceEndpointView { device_uri: self.device_uri@, transport: self.transport, preference: self.preference }
    }
}

pub open spec fn endpoints_view(endpoints: Seq<PaDeviceEndpoint>) -> Seq<PaDeviceEndpointView> {
    endpoints.map_values(|e: PaDeviceEndpoint| e@)
}

impl PaDeviceEndpoint {
    /// A copy of the endpoint.
    pub fn duplicate(&self) -> (r: Self)
        ensures
            r@ == self@,
    {
        PaDeviceEndpoint {
            device_uri: string_of(chars_of(self.device_uri.as_str())),
            transport: self.transport,
            preference: self.preference,
        }
    }
}

/// One Printer Application's offer to configure one physical printer.
#[derive(Clone, Debug)]
pub struct PaConfigurationCandidate {
    pub id: String,
    pub printer_application_id: String,
    /// Every way this application can reach the device, best first.
    pub endpoints: Vec<PaDeviceEndpoint>,
    pub identity: DeviceEvidence,
    pub display_name: String,
    pub make_and_model: Option<String>,
    /// The device ID this application reported, replayed verbatim.
    pub device_id: Option<String>,
    pub driver_match: PaDriverMatch,
}

/// A candidate as plain values.
pub struct CandidateView {
    pub id: Seq<char>,
    pub printer_application_id: Seq<char>,
    pub endpoints: Seq<PaDeviceEndpointView>,
    pub identity: DeviceEvidenceView,
    pub display_name: Seq<char>,
    pub make_and_model: Option<Seq<char>>,
    pub device_id: Option<Seq<char>>,
    pub driver_match: PaDriverMatchView,
}

impl View for PaConfigurationCandidate {
    type V = CandidateView;

    open spec fn view(&self) -> CandidateView {
        CandidateView {
            id: self.id@,
            printer_application_id: self.printer_application_id@,
            endpoints: endpoints_view(self.endpoints@),
            identity: self.identity@,
            display_name: self.display_name@,
            make_and_model: opt_view(self.make_and_model),
            device_id: opt_view(self.device_id),
            driver_match: self.driver_match@,
        }
    }
}

pub open spec fn candidates_view(candidates: Seq<PaConfigurationCandidate>) -> Seq<CandidateView> {
    candidates.map_values(|c: PaConfigurationCandidate| c@)
}

/// Copies a list of candidates.
pub fn duplicate_candidates(candidates: &Vec<PaConfigurationCandidate>) -> (r: Vec<PaConfigurationCandidate>)
    ensures
        candidates_view(r@) == candidates_view(candidates@),
{
    let mut out: Vec<PaConfigurationCandidate> = Vec::new();
    let mut i: usize = 0;
    while i < candidates.len()
        invariant
            i <= candidates.len(),
            out@.len() == i,
            forall|k: int| 0 <= k < i ==> (#[trigger] out@[k])@ == candidates@[k]@,
        decreases candidates.len() - i,
    {
        out.push(candidates[i].duplicate());
        i += 1;
    }
    proof {
        assert(candidates_view(out@) =~= candidates_view(candidates@));
    }
    out
}

/// Copies a list of endpoints.
pub fn duplicate_endpoints(endpoints: &Vec<PaDeviceEndpoint>) -> (r: Vec<PaDeviceEndpoint>)
    ensures
        endpoints_view(r@) == endpoints_view(endpoints@),
{
    let mut out: Vec<PaDeviceEndpoint> = Vec::new();
    let mut i: usize = 0;
    while i < endpoints.len()
        invariant
            i <= endpoints.len(),
            out@.len() == i,
            forall|k: int| 0 <= k < i ==> (#[trigger] out@[k])@ == endpoints@[k]@,
        decreases endpoints.len() - i,
    {
        out.push(endpoints[i].duplicate());
        i += 1;
    }
    proof {
        assert(endpoints_view(out@) =~= endpoints_view(endpoints@));
    }
    out
}

impl PaConfigurationCandidate {
    /// A copy of the candidate.
    pub fn duplicate(&self) -> (r: Self)
        ensures
            r@ == self@,
    {
        PaConfigurationCandidate {
            id: string_of(chars_of(self.id.as_str())),
            printer_application_id: string_of(chars_of(self.printer_application_id.as_str())),
            endpoints: duplicate_endpoints(&self.endpoints),
            identity: self.identity.duplicate(),
            display_name: string_of(chars_of(self.display_name.as_str())),
            make_and_model: copy_opt(&self.make_and_model),
            device_id: copy_opt(&self.device_id),
            driver_match: self.driver_match.duplicate(),
        }
    }

    /// Returns the endpoint to try first.
    pub fn preferred_endpoint(&self) -> (r: Option<&PaDeviceEndpoint>)
        ensures
            self.endpoints@.len() == 0 <==> r is None,
            r matches Some(e) ==> *e == self.endpoints@[0],
    {
        if self.endpoints.len() == 0 {
            None
        } else {
            Some(&self.endpoints[0])
        }
    }

    /// Returns the endpoints to try, in order, if the first one fails.
    pub fn fallback_endpoints(&self) -> (r: &[PaDeviceEndpoint])
        ensures
            self.endpoints@.len() == 0 ==> r@.len() == 0,
            self.endpoints@.len() > 0 ==> r@ == self.endpoints@.skip(1),
    {
        if self.endpoints.len() == 0 {
            self.endpoints.as_slice()
        } else {
            let (_, rest) = self.endpoints.as_slice().split_at(1);
            proof {
                assert(rest@ =~= self.endpoints@.skip(1));
            }
            rest
        }
    }

    /// The device URIs of every route to try, best first.
    pub fn route_uris(&self) -> (r: Vec<String>)
        ensures
            r@.len() == self.endpoints@.len(),
            forall|i: int| 0 <= i < r@.len() ==> #[trigger] r@[i]@ == self.endpoints@[i].device_uri@,
    {
        let mut uris: Vec<String> = Vec::new();
        let mut i: usize = 0;
        while i < self.endpoints.len()
            invariant
                i <= self.endpoints.len(),
                uris@.len() == i,
                forall|k: int| 0 <= k < i ==> #[trigger] uris@[k]@ == self.endpoints@[k].device_uri@,
            decreases self.endpoints.len() - i,
        {
            uris.push(string_of(chars_of(self.endpoints[i].device_uri.as_str())));
            i += 1;
        }
        uris
    }
}

// ------------------------------------------------------------ identity keys

pub open spec fn present(v: Option<Seq<char>>) -> bool {
    v matches Some(t) && t.len() > 0
}

pub open spec fn endpoint_text(host: Seq<char>, port: Option<u16>) -> Seq<char> {
    match port {
        Some(p) => host + ":"@ + decimal(p as nat),
        None => host,
    }
}

/// The key that identifies a physical device: `uuid:`, `serial:`,
/// `dnssd:`, `endpoint:` or `uri:` and the first of these values that the
/// evidence holds (empty values count as absent).
pub open spec fn stable_key_spec(e: DeviceEvidenceView) -> Option<Seq<char>> {
    if present(e.device_uuid) {
        Some("uuid:"@ + e.device_uuid->0)
    } else if present(e.serial_number) {
        Some("serial:"@ + e.serial_number->0)
    } else if present(e.dns_sd_service) {
        Some("dnssd:"@ + e.dns_sd_service->0)
    } else if present(e.network_hostname) {
        Some("endpoint:"@ + endpoint_text(e.network_hostname->0, e.network_port))
    } else if present(e.normalized_device_uri) {
        Some("uri:"@ + e.normalized_device_uri->0)
    } else {
        None
    }
}

fn nonempty(v: &Option<String>) -> (r: bool)
    ensures
        r == present(opt_view(*v)),
{
    match v {
        Some(t) => chars_of(t.as_str()).len() > 0,
        None => false,
    }
}

fn with_prefix(prefix: &str, value: &str) -> (r: Vec<char>)
    ensures
        r@ == prefix@ + value@,
{
    let mut out: Vec<char> = Vec::new();
    push_str(&mut out, prefix);
    push_str(&mut out, value);
    proof {
        assert(out@ =~= prefix@ + value@);
    }
    out
}

/// The identity key of a device's evidence, when it has one.
pub fn stable_key(e: &DeviceEvidence) -> (r: Option<Vec<char>>)
    ensures
        match r {
            Some(v) => stable_key_spec(e@) == Some(v@),
            None => stable_key_spec(e@) is None,
        },
{
    if nonempty(&e.device_uuid) {
        return Some(with_prefix("uuid:", e.device_uuid.as_ref().unwrap().as_str()));
    }
    if nonempty(&e.serial_number) {
        return Some(with_prefix("serial:", e.serial_number.as_ref().unwrap().as_str()));
    }
    if nonempty(&e.dns_sd_service) {
        return Some(with_prefix("dnssd:", e.dns_sd_service.as_ref().unwrap().as_str()));
    }
    if nonempty(&e.network_hostname) {
        let mut out = with_prefix("endpoint:", e.network_hostname.as_ref().unwrap().as_str());
        match e.network_port {
            Some(p) => {
                push_str(&mut out, ":");
                push_all(&mut out, &crate::text::decimal_exec(p as u64));
                proof {
                    assert(out@ =~= "endpoint:"@ + endpoint_text(e@.network_hostname->0, e.network_port));
                }
            },
            None => {},
        }
        return Some(out);
    }
    if nonempty(&e.normalized_device_uri) {
        return Some(with_prefix("uri:", e.normalized_device_uri.as_ref().unwrap().as_str()));
    }
    None
}

// ------------------------------------------------------------ rows

pub open spec fn key_of(c: CandidateView) -> Option<Seq<char>> {
    stable_key_spec(c.identity)
}

/// The first make-and-model any member reports.
pub open spec fn first_make_and_model(members: Seq<CandidateView>) -> Option<Seq<char>>
    decreases members.len(),
{
    if members.len() == 0 {
        None
    } else {
        let before = first_make_and_model(members.drop_last());
        if before is Some {
            before
        } else {
            members.last().make_and_model
        }
    }
}

/// The alphabetically first display name of the members.
pub open spec fn least_display_name(members: Seq<CandidateView>) -> Seq<char>
    decreases members.len(),
{
    if members.len() == 0 {
        Seq::empty()
    } else if members.len() == 1 {
        members[0].display_name
    } else {
        let before = least_display_name(members.drop_last());
        if lex_lt(members.last().display_name, before) {
            members.last().display_name
        } else {
            before
        }
    }
}

/// What a row is called: the first make-and-model, otherwise the
/// alphabetically first display name.
pub open spec fn row_display_name(members: Seq<CandidateView>) -> Seq<char> {
    match first_make_and_model(members) {
        Some(name) => name,
        None => if members.len() == 0 {
            "Unknown printer"@
        } else {
            least_display_name(members)
        },
    }
}

/// A row's identifier: `physical:` and the members' identity key, or
/// `physical:candidate:` and the first member's identifier when they have
/// none.
pub open spec fn row_id_for(members: Seq<CandidateView>) -> Seq<char> {
    match key_of(members[0]) {
        Some(k) => "physical:"@ + k,
        None => "physical:candidate:"@ + members[0].id,
    }
}

/// One physical printer and every application that offered to configure it.
#[derive(Debug)]
pub struct PhysicalPrinter {
    pub id: String,
    pub display_name: String,
    pub make_and_model: Option<String>,
    pub candidates: Vec<PaConfigurationCandidate>,
}

/// A row as plain values.
pub struct PhysicalPrinterView {
    pub id: Seq<char>,
    pub display_name: Seq<char>,
    pub make_and_model: Option<Seq<char>>,
    pub candidates: Seq<CandidateView>,
}

impl View for PhysicalPrinter {
    type V = PhysicalPrinterView;

    open spec fn view(&self) -> PhysicalPrinterView {
        PhysicalPrinterView {
            id: self.id@,
            display_name: self.display_name@,
            make_and_model: opt_view(self.make_and_model),
            candidates: candidates_view(self.candidates@),
        }
    }
}

pub open spec fn rows_view(rows: Seq<PhysicalPrinter>) -> Seq<PhysicalPrinterView> {
    rows.map_values(|r: PhysicalPrinter| r@)
}

/// A row holds candidates of one identity key (a keyless candidate stands
/// alone), and is named after them.
pub open spec fn row_made(row: PhysicalPrinterView) -> bool {
    &&& row.candidates.len() > 0
    &&& forall|q: int| 0 <= q < row.candidates.len() ==> key_of(#[trigger] row.candidates[q]) == key_of(row.candidates[0])
    &&& key_of(row.candidates[0]) is None ==> row.candidates.len() == 1
    &&& row.display_name == row_display_name(row.candidates)
    &&& row.make_and_model == first_make_and_model(row.candidates)
}

/// Whether `a` is listed before `b`: by name, then by identifier.
pub open spec fn row_before(a: PhysicalPrinterView, b: PhysicalPrinterView) -> bool {
    lex_lt(a.display_name, b.display_name) || (a.display_name == b.display_name && lex_lt(a.id, b.id))
}

pub open spec fn sorted_by_name(rows: Seq<PhysicalPrinterView>) -> bool {
    forall|a: int, b: int| 0 <= a < b < rows.len() ==> !lex_lt(#[trigger] rows[b].display_name, #[trigger] rows[a].display_name)
}

/// The rows group exactly the input: each row is well made, holds only
/// input candidates, every input candidate is in a row, candidates sharing
/// an identity key share a row, and rows are listed by name.
pub open spec fn grouping(input: Seq<CandidateView>, rows: Seq<PhysicalPrinterView>) -> bool {
    &&& forall|p: int| 0 <= p < rows.len() ==> row_made(#[trigger] rows[p])
    &&& forall|p: int, q: int| 0 <= p < rows.len() && 0 <= q < rows[p].candidates.len()
        ==> input.contains(#[trigger] rows[p].candidates[q])
    &&& forall|i: int| 0 <= i < input.len() ==> in_one_row(rows, #[trigger] input[i], input[i])
    &&& forall|i: int, j: int| 0 <= i < input.len() && 0 <= j < input.len()
        && key_of(#[trigger] input[i]) is Some && key_of(input[i]) == key_of(#[trigger] input[j])
        ==> in_one_row(rows, input[i], input[j])
    &&& sorted_by_name(rows)
}

/// Whether one row holds both candidates.
pub open spec fn in_one_row(rows: Seq<PhysicalPrinterView>, a: CandidateView, b: CandidateView) -> bool {
    exists|p: int| 0 <= p < rows.len() && (#[trigger] rows[p].candidates).contains(a) && rows[p].candidates.contains(b)
}

fn first_make_and_model_exec(members: &Vec<PaConfigurationCandidate>) -> (r: Option<String>)
    ensures
        opt_view(r) == first_make_and_model(candidates_view(members@)),
{
    let ghost m = candidates_view(members@);
    let mut i: usize = 0;
    let mut found: Option<String> = None;
    while i < members.len()
        invariant
            i <= members.len(),
            m == candidates_view(members@),
            opt_view(found) == first_make_and_model(m.take(i as int)),
        decreases members.len() - i,
    {
        proof {
            assert(m.take(i + 1).drop_last() =~= m.take(i as int));
        }
        if found.is_none() {
            found = copy_opt(&members[i].make_and_model);
        }
        i += 1;
    }
    proof {
        assert(m.take(members@.len() as int) =~= m);
    }
    found
}

fn least_display_name_exec(members: &Vec<PaConfigurationCandidate>) -> (r: String)
    ensures
        r@ == least_display_name(candidates_view(members@)),
{
    let ghost m = candidates_view(members@);
    if members.len() == 0 {
        return string_of(Vec::new());
    }
    let mut least = chars_of(members[0].display_name.as_str());
    proof {
        assert(m.take(1).len() == 1);
    }
    let mut i: usize = 1;
    while i < members.len()
        invariant
            1 <= i <= members.len(),
            m == candidates_view(members@),
            least@ == least_display_name(m.take(i as int)),
        decreases members.len() - i,
    {
        proof {
            assert(m.take(i + 1).drop_last() =~= m.take(i as int));
        }
        let name = chars_of(members[i].display_name.as_str());
        if crate::text::lex_lt_exec(&name, &least) {
            least = name;
        }
        i += 1;
    }
    proof {
        assert(m.take(members@.len() as int) =~= m);
    }
    string_of(least)
}

fn row_display_name_exec(members: &Vec<PaConfigurationCandidate>) -> (r: String)
    ensures
        r@ == row_display_name(candidates_view(members@)),
{
    match first_make_and_model_exec(members) {
        Some(name) => name,
        None => if members.len() == 0 {
            "Unknown printer".to_string()
        } else {
            least_display_name_exec(members)
        },
    }
}

fn row_id_exec(members: &Vec<PaConfigurationCandidate>) -> (r: String)
    requires
        members@.len() > 0,
    ensures
        r@ == row_id_for(candidates_view(members@)),
{
    match stable_key(&members[0].identity) {
        Some(k) => {
            let mut out: Vec<char> = Vec::new();
            push_str(&mut out, "physical:");
            push_all(&mut out, &k);
            string_of(out)
        },
        None => string_of(with_prefix("physical:candidate:", members[0].id.as_str())),
    }
}

/// Whether one row is listed before another.
pub fn row_before_exec(a: &PhysicalPrinter, b: &PhysicalPrinter) -> (r: bool)
    ensures
        r == row_before(a@, b@),
{
    let an = chars_of(a.display_name.as_str());
    let bn = chars_of(b.display_name.as_str());
    crate::text::lex_lt_exec(&an, &bn) || (crate::text::eq_vec(&an, &bn) && crate::text::lex_lt_exec(
        &chars_of(a.id.as_str()),
        &chars_of(b.id.as_str()),
    ))
}

pub open spec fn key_view(k: Option<Vec<char>>) -> Option<Seq<char>> {
    match k {
        Some(v) => Some(v@),
        None => None,
    }
}

pub open spec fn keys_view(keys: Seq<Option<Vec<char>>>) -> Seq<Option<Seq<char>>> {
    keys.map_values(|k: Option<Vec<char>>| key_view(k))
}

pub open spec fn groups_view(groups: Seq<Vec<PaConfigurationCandidate>>) -> Seq<Seq<CandidateView>> {
    groups.map_values(|g: Vec<PaConfigurationCandidate>| candidates_view(g@))
}

fn find_key(keys: &Vec<Option<Vec<char>>>, key: &Vec<char>) -> (r: Option<usize>)
    ensures
        match r {
            Some(p) => p < keys@.len() && keys_view(keys@)[p as int] == Some(key@),
            None => forall|t: int| 0 <= t < keys@.len() ==> keys_view(keys@)[t] != Some(key@),
        },
{
    let mut p: usize = 0;
    while p < keys.len()
        invariant
            p <= keys@.len(),
            forall|t: int| 0 <= t < p ==> keys_view(keys@)[t] != Some(key@),
        decreases keys.len() - p,
    {
        match &keys[p] {
            Some(k) => {
                if crate::text::eq_vec(k, key) {
                    return Some(p);
                }
            },
            None => {},
        }
        p += 1;
    }
    None
}

/// Whether some group holds the candidate.
pub open spec fn covered(g: Seq<Seq<CandidateView>>, c: CandidateView) -> bool {
    exists|p: int| 0 <= p < g.len() && (#[trigger] g[p]).contains(c)
}

/// What gathering the first `n` inputs has built.
pub open spec fn gather_inv(g: Seq<Seq<CandidateView>>, kv: Seq<Option<Seq<char>>>, input: Seq<CandidateView>, n: int) -> bool {
    &&& 0 <= n <= input.len()
    &&& g.len() == kv.len()
    &&& forall|p: int| 0 <= p < g.len() ==> (#[trigger] g[p]).len() > 0
    &&& forall|p: int, q: int| 0 <= p < g.len() && 0 <= q < g[p].len() ==> key_of(#[trigger] g[p][q]) == kv[p]
    &&& forall|p: int| 0 <= p < g.len() && (#[trigger] kv[p]) is None ==> g[p].len() == 1
    &&& forall|p1: int, p2: int| 0 <= p1 < g.len() && 0 <= p2 < g.len() && p1 != p2
        && (#[trigger] kv[p1]) is Some ==> kv[p1] != #[trigger] kv[p2]
    &&& forall|p: int, q: int| 0 <= p < g.len() && 0 <= q < g[p].len() ==> input.contains(#[trigger] g[p][q])
    &&& forall|j: int| 0 <= j < n ==> covered(g, #[trigger] input[j])
}

/// What gathering everything guarantees.
pub open spec fn gathered(g: Seq<Seq<CandidateView>>, input: Seq<CandidateView>) -> bool {
    &&& forall|p: int| 0 <= p < g.len() ==> (#[trigger] g[p]).len() > 0
    &&& forall|p: int, q: int| 0 <= p < g.len() && 0 <= q < g[p].len() ==> key_of(#[trigger] g[p][q]) == key_of(g[p][0])
    &&& forall|p: int| 0 <= p < g.len() && key_of((#[trigger] g[p])[0]) is None ==> g[p].len() == 1
    &&& forall|p1: int, p2: int| 0 <= p1 < g.len() && 0 <= p2 < g.len() && p1 != p2
        && key_of((#[trigger] g[p1])[0]) is Some ==> key_of(g[p1][0]) != key_of((#[trigger] g[p2])[0])
    &&& forall|p: int, q: int| 0 <= p < g.len() && 0 <= q < g[p].len() ==> input.contains(#[trigger] g[p][q])
    &&& forall|i: int| 0 <= i < input.len() ==> covered(g, #[trigger] input[i])
}

proof fn lemma_gather_done(g: Seq<Seq<CandidateView>>, kv: Seq<Option<Seq<char>>>, input: Seq<CandidateView>)
    requires
        gather_inv(g, kv, input, input.len() as int),
    ensures
        gathered(g, input),
{
    assert forall|p: int| 0 <= p < g.len() implies key_of((#[trigger] g[p])[0]) == kv[p] by {
        assert(g[p].len() > 0);
    }
    assert forall|p1: int, p2: int| 0 <= p1 < g.len() && 0 <= p2 < g.len() && p1 != p2
        && key_of((#[trigger] g[p1])[0]) is Some implies key_of(g[p1][0]) != key_of((#[trigger] g[p2])[0]) by {
        assert(key_of(g[p1][0]) == kv[p1]);
        assert(key_of(g[p2][0]) == kv[p2]);
    }
    assert forall|p: int, q: int| 0 <= p < g.len() && 0 <= q < g[p].len() implies key_of(#[trigger] g[p][q]) == key_of(g[p][0]) by {
        assert(key_of(g[p][q]) == kv[p]);
        assert(key_of(g[p][0]) == kv[p]);
    }
    assert forall|p: int| 0 <= p < g.len() && key_of((#[trigger] g[p])[0]) is None implies g[p].len() == 1 by {
        assert(key_of(g[p][0]) == kv[p]);
    }
}

fn place(
    groups: &mut Vec<Vec<PaConfigurationCandidate>>,
    keys: &mut Vec<Option<Vec<char>>>,
    c: PaConfigurationCandidate,
    Ghost(input): Ghost<Seq<CandidateView>>,
    Ghost(n): Ghost<int>,
)
    requires
        gather_inv(groups_view(old(groups)@), keys_view(old(keys)@), input, n),
        n < input.len(),
        c@ == input[n],
    ensures
        gather_inv(groups_view(final(groups)@), keys_view(final(keys)@), input, n + 1),
{
    let ghost cv = c@;
    let ghost before = groups_view(groups@);
    let ghost kbefore = keys_view(keys@);
    let key = stable_key(&c.identity);
    let at: Option<usize> = match &key {
        Some(k) => find_key(keys, k),
        None => None,
    };
    match at {
        Some(p) => {
            groups[p].push(c);
            proof {
                let after = groups_view(groups@);
                let ka = keys_view(keys@);
                assert(ka == kbefore);
                assert(after[p as int] == before[p as int].push(cv));
                assert forall|t: int| 0 <= t < after.len() && t != p implies after[t] == before[t] by {}
                assert forall|t: int, q: int| 0 <= t < after.len() && 0 <= q < after[t].len()
                    implies input.contains(#[trigger] after[t][q]) by {
                    if t == p && q == before[p as int].len() {
                        assert(input[n] == cv);
                    } else if t == p {
                        assert(after[t][q] == before[t][q]);
                    }
                }
                assert forall|j: int| 0 <= j < n + 1 implies covered(after, #[trigger] input[j]) by {
                    if j == n {
                        assert(after[p as int][before[p as int].len() as int] == input[j]);
                        assert(after[p as int].contains(input[j]));
                    } else {
                        assert(covered(before, input[j]));
                        let t = choose|t: int| 0 <= t < before.len() && (#[trigger] before[t]).contains(input[j]);
                        let q = choose|q: int| 0 <= q < before[t].len() && before[t][q] == input[j];
                        if t == p {
                            assert(after[t][q] == input[j]);
                        }
                        assert(after[t].contains(input[j]));
                    }
                }
                assert forall|t: int, q: int| 0 <= t < after.len() && 0 <= q < after[t].len()
                    implies key_of(#[trigger] after[t][q]) == ka[t] by {
                    if t == p && q < before[p as int].len() {
                        assert(after[t][q] == before[t][q]);
                    }
                }
                assert forall|t: int| 0 <= t < after.len() implies (#[trigger] after[t]).len() > 0 by {
                    if t != p {
                        assert(after[t] == before[t]);
                    }
                }
            }
        },
        None => {
            let mut fresh: Vec<PaConfigurationCandidate> = Vec::new();
            fresh.push(c);
            groups.push(fresh);
            keys.push(key);
            proof {
                let after = groups_view(groups@);
                let ka = keys_view(keys@);
                let m = before.len();
                assert(after[m as int] =~= seq![cv]);
                assert forall|t: int| 0 <= t < m implies after[t] == before[t] && ka[t] == kbefore[t] by {}
                assert(ka[m as int] == key_of(cv));
                assert forall|t: int, q: int| 0 <= t < after.len() && 0 <= q < after[t].len()
                    implies input.contains(#[trigger] after[t][q]) by {
                    if t == m {
                        assert(input[n] == cv);
                    }
                }
                assert forall|j: int| 0 <= j < n + 1 implies covered(after, #[trigger] input[j]) by {
                    if j == n {
                        assert(after[m as int][0] == input[j]);
                        assert(after[m as int].contains(input[j]));
                    } else {
                        assert(covered(before, input[j]));
                        let t = choose|t: int| 0 <= t < before.len() && (#[trigger] before[t]).contains(input[j]);
                        assert(after[t] == before[t]);
                        assert(after[t].contains(input[j]));
                    }
                }
            }
        },
    }
}

/// Gathers candidates into groups of one identity key, in order of first
/// appearance; a keyless candidate forms a group of its own.
fn gather(candidates: &Vec<PaConfigurationCandidate>) -> (r: Vec<Vec<PaConfigurationCandidate>>)
    ensures
        gathered(groups_view(r@), candidates_view(candidates@)),
{
    let ghost input = candidates_view(candidates@);
    let mut groups: Vec<Vec<PaConfigurationCandidate>> = Vec::new();
    let mut keys: Vec<Option<Vec<char>>> = Vec::new();
    let mut i: usize = 0;
    proof {
        assert(groups_view(groups@) =~= Seq::<Seq<CandidateView>>::empty());
        assert(keys_view(keys@) =~= Seq::<Option<Seq<char>>>::empty());
    }
    while i < candidates.len()
        invariant
            i <= candidates@.len(),
            input == candidates_view(candidates@),
            gather_inv(groups_view(groups@), keys_view(keys@), input, i as int),
        decreases candidates.len() - i,
    {
        let c = candidates[i].duplicate();
        place(&mut groups, &mut keys, c, Ghost(input), Ghost(i as int));
        i += 1;
    }
    proof {
        lemma_gather_done(groups_view(groups@), keys_view(keys@), input);
    }
    groups
}

/// A row named as its members say.
pub open spec fn row_named(x: PhysicalPrinterView) -> bool {
    &&& x.id == row_id_for(x.candidates)
    &&& x.display_name == row_display_name(x.candidates)
    &&& x.make_and_model == first_make_and_model(x.candidates)
}

/// Rows listed by name, then by identifier.
pub open spec fn listed_in_order(rows: Seq<PhysicalPrinterView>) -> bool {
    forall|a: int, b: int| 0 <= a < b < rows.len() ==> !row_before(#[trigger] rows[b], #[trigger] rows[a])
}

pub proof fn lemma_row_before_irreflexive(a: PhysicalPrinterView)
    ensures
        !row_before(a, a),
{
    crate::text::lemma_lex_irreflexive(a.display_name);
    crate::text::lemma_lex_irreflexive(a.id);
}

pub proof fn lemma_row_before_transitive(a: PhysicalPrinterView, b: PhysicalPrinterView, c: PhysicalPrinterView)
    requires
        row_before(a, b),
        row_before(b, c),
    ensures
        row_before(a, c),
{
    if lex_lt(a.display_name, b.display_name) {
        if lex_lt(b.display_name, c.display_name) {
            crate::text::lemma_lex_transitive(a.display_name, b.display_name, c.display_name);
        }
    } else {
        if lex_lt(b.display_name, c.display_name) {
        } else {
            crate::text::lemma_lex_transitive(a.id, b.id, c.id);
        }
    }
}

fn finish_row(members: Vec<PaConfigurationCandidate>) -> (r: PhysicalPrinter)
    requires
        members@.len() > 0,
    ensures
        r@.candidates == candidates_view(members@),
        row_named(r@),
{
    let id = row_id_exec(&members);
    let display_name = row_display_name_exec(&members);
    let make_and_model = first_make_and_model_exec(&members);
    PhysicalPrinter { id, display_name, make_and_model, candidates: members }
}

/// Inserts a row after every row listed no later than it.
fn insert_row(rows: &mut Vec<PhysicalPrinter>, row: PhysicalPrinter)
    requires
        listed_in_order(rows_view(old(rows)@)),
    ensures
        listed_in_order(rows_view(final(rows)@)),
        forall|x: PhysicalPrinterView| rows_view(final(rows)@).contains(x) <==> (rows_view(old(rows)@).contains(x)
            || x == row@),
{
    let ghost before = rows_view(rows@);
    let ghost x = row@;
    let mut p: usize = 0;
    while p < rows.len() && !row_before_exec(&row, &rows[p])
        invariant
            p <= rows@.len(),
            before == rows_view(rows@),
            x == row@,
            forall|k: int| 0 <= k < p ==> !row_before(x, #[trigger] before[k]),
        decreases rows.len() - p,
    {
        p += 1;
    }
    rows.insert(p, row);
    proof {
        let after = rows_view(rows@);
        assert(after =~= before.insert(p as int, x));
        assert forall|a: int, b: int| 0 <= a < b < after.len() implies !row_before(#[trigger] after[b], #[trigger] after[a]) by {
            if b < p {
                assert(after[a] == before[a] && after[b] == before[b]);
            } else if b == p {
                assert(after[a] == before[a]);
            } else if a == p {
                assert(after[b] == before[b - 1]);
                assert(row_before(x, before[p as int]));
                if row_before(before[b - 1], x) {
                    lemma_row_before_transitive(before[b - 1], x, before[p as int]);
                    if b - 1 == p {
                        lemma_row_before_irreflexive(before[p as int]);
                    }
                }
            } else if a < p {
                assert(after[a] == before[a] && after[b] == before[b - 1]);
            } else {
                assert(after[a] == before[a - 1] && after[b] == before[b - 1]);
            }
        }
        assert forall|y: PhysicalPrinterView| after.contains(y) <==> (before.contains(y) || y == x) by {
            if after.contains(y) {
                let k = choose|k: int| 0 <= k < after.len() && after[k] == y;
                if k < p {
                    assert(before[k] == y);
                } else if k > p {
                    assert(before[k - 1] == y);
                }
            }
            if before.contains(y) {
                let k = choose|k: int| 0 <= k < before.len() && before[k] == y;
                if k < p {
                    assert(after[k] == y);
                } else {
                    assert(after[k + 1] == y);
                }
            }
            if y == x {
                assert(after[p as int] == y);
            }
        }
    }
}

/// Whether a row was made from one of the groups from `lo` on.
pub open spec fn from_groups(g: Seq<Seq<CandidateView>>, lo: int, x: PhysicalPrinterView) -> bool {
    exists|p: int| lo <= p < g.len() && x.candidates == #[trigger] g[p]
}

/// Whether some row holds exactly these members.
pub open spec fn has_row(rows: Seq<PhysicalPrinterView>, members: Seq<CandidateView>) -> bool {
    exists|t: int| 0 <= t < rows.len() && (#[trigger] rows[t]).candidates == members
}

pub open spec fn rows_from(g: Seq<Seq<CandidateView>>, rows: Seq<PhysicalPrinterView>) -> bool {
    &&& forall|t: int| 0 <= t < rows.len() ==> row_named(#[trigger] rows[t]) && from_groups(g, 0, rows[t])
    &&& forall|p: int| 0 <= p < g.len() ==> has_row(rows, #[trigger] g[p])
}

proof fn lemma_rows_made(input: Seq<CandidateView>, g: Seq<Seq<CandidateView>>, rows: Seq<PhysicalPrinterView>)
    requires
        gathered(g, input),
        rows_from(g, rows),
    ensures
        forall|t: int| 0 <= t < rows.len() ==> row_made(#[trigger] rows[t]),
        forall|t: int, q: int| 0 <= t < rows.len() && 0 <= q < rows[t].candidates.len()
            ==> input.contains(#[trigger] rows[t].candidates[q]),
{
    assert forall|t: int| 0 <= t < rows.len() implies row_made(#[trigger] rows[t]) by {
        assert(from_groups(g, 0, rows[t]));
        let p = choose|p: int| 0 <= p < g.len() && rows[t].candidates == #[trigger] g[p];
        assert(g[p].len() > 0);
        assert forall|q: int| 0 <= q < rows[t].candidates.len() implies key_of(#[trigger] rows[t].candidates[q])
            == key_of(rows[t].candidates[0]) by {
            assert(key_of(g[p][q]) == key_of(g[p][0]));
        }
    }
    assert forall|t: int, q: int| 0 <= t < rows.len() && 0 <= q < rows[t].candidates.len()
        implies input.contains(#[trigger] rows[t].candidates[q]) by {
        assert(from_groups(g, 0, rows[t]));
        let p = choose|p: int| 0 <= p < g.len() && rows[t].candidates == #[trigger] g[p];
        assert(input.contains(g[p][q]));
    }
}

proof fn lemma_rows_cover(input: Seq<CandidateView>, g: Seq<Seq<CandidateView>>, rows: Seq<PhysicalPrinterView>)
    requires
        gathered(g, input),
        rows_from(g, rows),
    ensures
        forall|i: int| 0 <= i < input.len() ==> in_one_row(rows, #[trigger] input[i], input[i]),
{
    assert forall|i: int| 0 <= i < input.len() implies in_one_row(rows, #[trigger] input[i], input[i]) by {
        assert(covered(g, input[i]));
        let p = choose|p: int| 0 <= p < g.len() && (#[trigger] g[p]).contains(input[i]);
        assert(has_row(rows, g[p]));
        let t = choose|t: int| 0 <= t < rows.len() && (#[trigger] rows[t]).candidates == g[p];
        assert(rows[t].candidates.contains(input[i]));
    }
}

proof fn lemma_rows_join(input: Seq<CandidateView>, g: Seq<Seq<CandidateView>>, rows: Seq<PhysicalPrinterView>, i: int, j: int)
    requires
        gathered(g, input),
        rows_from(g, rows),
        0 <= i < input.len(),
        0 <= j < input.len(),
        key_of(input[i]) is Some,
        key_of(input[i]) == key_of(input[j]),
    ensures
        in_one_row(rows, input[i], input[j]),
{
    assert(covered(g, input[i]));
    assert(covered(g, input[j]));
    let p1 = choose|p: int| 0 <= p < g.len() && (#[trigger] g[p]).contains(input[i]);
    let p2 = choose|p: int| 0 <= p < g.len() && (#[trigger] g[p]).contains(input[j]);
    let q1 = choose|q: int| 0 <= q < g[p1].len() && g[p1][q] == input[i];
    let q2 = choose|q: int| 0 <= q < g[p2].len() && g[p2][q] == input[j];
    assert(key_of(g[p1][q1]) == key_of(g[p1][0]));
    assert(key_of(g[p2][q2]) == key_of(g[p2][0]));
    assert(p1 == p2);
    assert(has_row(rows, g[p1]));
    let t = choose|t: int| 0 <= t < rows.len() && (#[trigger] rows[t]).candidates == g[p1];
    assert(rows[t].candidates.contains(input[i]));
    assert(rows[t].candidates.contains(input[j]));
}

proof fn lemma_rows_group(input: Seq<CandidateView>, g: Seq<Seq<CandidateView>>, rows: Seq<PhysicalPrinterView>)
    requires
        gathered(g, input),
        rows_from(g, rows),
        listed_in_order(rows),
    ensures
        grouping(input, rows),
{
    lemma_rows_made(input, g, rows);
    lemma_rows_cover(input, g, rows);
    assert forall|i: int, j: int| 0 <= i < input.len() && 0 <= j < input.len()
        && key_of(#[trigger] input[i]) is Some && key_of(input[i]) == key_of(#[trigger] input[j])
        implies in_one_row(rows, input[i], input[j]) by {
        lemma_rows_join(input, g, rows, i, j);
    }
}

/// Groups candidates from every Printer Application into one row per
/// physical printer, named after its members and listed by name, then by
/// identifier.
#[verifier::spinoff_prover]
pub fn group_candidates(candidates: Vec<PaConfigurationCandidate>) -> (r: Vec<PhysicalPrinter>)
    ensures
        grouping(candidates_view(candidates@), rows_view(r@)),
        listed_in_order(rows_view(r@)),
        forall|t: int| 0 <= t < r@.len() ==> row_named(#[trigger] rows_view(r@)[t]),
{
    let mut groups = gather(&candidates);
    let ghost g0 = groups_view(groups@);
    let mut rows: Vec<PhysicalPrinter> = Vec::new();
    proof {
        assert(g0.take(g0.len() as int) =~= g0);
    }
    while groups.len() > 0
        invariant
            groups@.len() <= g0.len(),
            groups_view(groups@) == g0.take(groups@.len() as int),
            gathered(g0, candidates_view(candidates@)),
            listed_in_order(rows_view(rows@)),
            forall|t: int| 0 <= t < rows@.len() ==> row_named(#[trigger] rows_view(rows@)[t])
                && from_groups(g0, groups@.len() as int, rows_view(rows@)[t]),
            forall|p: int| groups@.len() <= p < g0.len() ==> has_row(rows_view(rows@), #[trigger] g0[p]),
        decreases groups.len(),
    {
        let ghost n = groups@.len() as int;
        let ghost before = rows_view(rows@);
        let ghost gb = groups@;
        let members = groups.pop().unwrap();
        proof {
            assert(members == gb[n - 1]);
            assert(groups_view(gb)[n - 1] == candidates_view(gb[n - 1]@));
            assert(groups_view(gb)[n - 1] == g0[n - 1]);
            assert(candidates_view(members@) == g0[n - 1]);
            assert(groups_view(groups@) =~= g0.take(n - 1));
        }
        let row = finish_row(members);
        let ghost x = row@;
        insert_row(&mut rows, row);
        proof {
            let after = rows_view(rows@);
            assert forall|t: int| 0 <= t < after.len() implies row_named(#[trigger] after[t])
                && from_groups(g0, n - 1, after[t]) by {
                assert(after.contains(after[t]));
                if after[t] == x {
                    assert(x.candidates == g0[n - 1]);
                } else {
                    let k = choose|k: int| 0 <= k < before.len() && before[k] == after[t];
                    assert(from_groups(g0, n, before[k]));
                    let p = choose|p: int| n <= p < g0.len() && before[k].candidates == #[trigger] g0[p];
                    assert(after[t].candidates == g0[p]);
                }
            }
            assert forall|p: int| n - 1 <= p < g0.len() implies has_row(after, #[trigger] g0[p]) by {
                if p == n - 1 {
                    assert(after.contains(x));
                    let t = choose|t: int| 0 <= t < after.len() && after[t] == x;
                    assert(after[t].candidates == g0[p]);
                } else {
                    assert(has_row(before, g0[p]));
                    let t = choose|t: int| 0 <= t < before.len() && (#[trigger] before[t]).candidates == g0[p];
                    assert(before.contains(before[t]));
                    assert(after.contains(before[t]));
                    let u = choose|u: int| 0 <= u < after.len() && after[u] == before[t];
                    assert(after[u].candidates == g0[p]);
                }
            }
        }
    }
    proof {
        let rv = rows_view(rows@);
        assert forall|t: int| 0 <= t < rv.len() implies row_named(#[trigger] rv[t]) && from_groups(g0, 0, rv[t]) by {
            assert(from_groups(g0, 0, rv[t]));
        }
        lemma_rows_group(candidates_view(candidates@), g0, rv);
    }
    rows
}

/// Whether two rows hold a candidate with the same identifier.
pub open spec fn shares_candidate(a: PhysicalPrinterView, b: PhysicalPrinterView) -> bool {
    exists|q1: int, q2: int| 0 <= q1 < a.candidates.len() && 0 <= q2 < b.candidates.len()
        && (#[trigger] a.candidates[q1]).id == (#[trigger] b.candidates[q2]).id
}

/// The first established row, from `from` on, that is named otherwise and
/// shares a candidate with `row`.
pub open spec fn first_established(established: Seq<PhysicalPrinterView>, row: PhysicalPrinterView, from: int) -> Option<int>
    decreases established.len() - from,
    when 0 <= from
{
    if from >= established.len() {
        None
    } else if established[from].id != row.id && shares_candidate(established[from], row) {
        Some(from)
    } else {
        first_established(established, row, from + 1)
    }
}

/// Whether a row of `rows` carries the identifier.
pub open spec fn id_taken(rows: Seq<PhysicalPrinterView>, id: Seq<char>) -> bool {
    exists|t: int| 0 <= t < rows.len() && (#[trigger] rows[t]).id == id
}

/// The identifier a rebuilt row keeps: that of the first established row it
/// shares a candidate with, unless a rebuilt row already carries it.
pub open spec fn kept_id(established: Seq<PhysicalPrinterView>, rebuilt: Seq<PhysicalPrinterView>, row: PhysicalPrinterView) -> Seq<char> {
    match first_established(established, row, 0) {
        Some(k) => if id_taken(rebuilt, established[k].id) {
            row.id
        } else {
            established[k].id
        },
        None => row.id,
    }
}

fn shares_candidate_exec(a: &PhysicalPrinter, b: &PhysicalPrinter) -> (r: bool)
    ensures
        r == shares_candidate(a@, b@),
{
    let mut q1: usize = 0;
    while q1 < a.candidates.len()
        invariant
            q1 <= a.candidates@.len(),
            forall|x: int, y: int| 0 <= x < q1 && 0 <= y < b.candidates@.len()
                ==> (#[trigger] a@.candidates[x]).id != (#[trigger] b@.candidates[y]).id,
        decreases a.candidates.len() - q1,
    {
        let left = chars_of(a.candidates[q1].id.as_str());
        let mut q2: usize = 0;
        while q2 < b.candidates.len()
            invariant
                q1 < a.candidates@.len(),
                q2 <= b.candidates@.len(),
                left@ == a@.candidates[q1 as int].id,
                forall|x: int, y: int| 0 <= x < q1 && 0 <= y < b.candidates@.len()
                    ==> (#[trigger] a@.candidates[x]).id != (#[trigger] b@.candidates[y]).id,
                forall|y: int| 0 <= y < q2 ==> a@.candidates[q1 as int].id != (#[trigger] b@.candidates[y]).id,
            decreases b.candidates.len() - q2,
        {
            if crate::text::eq_vec(&left, &chars_of(b.candidates[q2].id.as_str())) {
                proof {
                    assert(a@.candidates[q1 as int].id == b@.candidates[q2 as int].id);
                }
                return true;
            }
            q2 += 1;
        }
        q1 += 1;
    }
    false
}

pub proof fn lemma_first_established_bounds(established: Seq<PhysicalPrinterView>, row: PhysicalPrinterView, from: int)
    requires
        0 <= from,
    ensures
        first_established(established, row, from) matches Some(k) ==> from <= k < established.len(),
    decreases established.len() - from,
{
    if from < established.len() {
        lemma_first_established_bounds(established, row, from + 1);
    }
}

fn first_established_exec(established: &Vec<PhysicalPrinter>, row: &PhysicalPrinter) -> (r: Option<usize>)
    ensures
        match r {
            Some(k) => first_established(rows_view(established@), row@, 0) == Some(k as int),
            None => first_established(rows_view(established@), row@, 0) is None,
        },
        r matches Some(k) ==> k < established@.len(),
{
    let ghost est = rows_view(established@);
    let mut k: usize = established.len();
    let mut found: Option<usize> = None;
    while k > 0
        invariant
            k <= established@.len(),
            est == rows_view(established@),
            match found {
                Some(f) => first_established(est, row@, k as int) == Some(f as int),
                None => first_established(est, row@, k as int) is None,
            },
        decreases k,
    {
        proof {
            lemma_first_established_bounds(est, row@, k as int);
        }
        k -= 1;
        let here = chars_of(established[k].id.as_str());
        if !crate::text::eq_vec(&here, &chars_of(row.id.as_str())) && shares_candidate_exec(&established[k], row) {
            found = Some(k);
        }
    }
    proof {
        lemma_first_established_bounds(est, row@, 0);
    }
    found
}

/// Keeps a row's identifier while any of its candidates stays in it: a
/// rebuilt row takes the identifier of the first established row it shares
/// a candidate with, unless some rebuilt row already carries that one.
pub fn keep_established_identifiers(established: &Vec<PhysicalPrinter>, rebuilt: &mut Vec<PhysicalPrinter>)
    ensures
        final(rebuilt)@.len() == old(rebuilt)@.len(),
        forall|t: int| 0 <= t < final(rebuilt)@.len() ==> {
            let before = (#[trigger] rows_view(old(rebuilt)@)[t]);
            let after = rows_view(final(rebuilt)@)[t];
            &&& after.id == kept_id(rows_view(established@), rows_view(old(rebuilt)@), before)
            &&& after.display_name == before.display_name
            &&& after.make_and_model == before.make_and_model
            &&& after.candidates == before.candidates
        },
{
    let ghost initial = rows_view(rebuilt@);
    let mut taken: Vec<Vec<char>> = Vec::new();
    let mut t: usize = 0;
    while t < rebuilt.len()
        invariant
            t <= rebuilt@.len(),
            initial == rows_view(rebuilt@),
            taken@.len() == t,
            forall|k: int| 0 <= k < t ==> (#[trigger] taken@[k])@ == initial[k].id,
        decreases rebuilt.len() - t,
    {
        taken.push(chars_of(rebuilt[t].id.as_str()));
        t += 1;
    }
    let mut t: usize = 0;
    while t < rebuilt.len()
        invariant
            t <= rebuilt@.len(),
            rebuilt@.len() == initial.len(),
            taken@.len() == initial.len(),
            forall|k: int| 0 <= k < initial.len() ==> (#[trigger] taken@[k])@ == initial[k].id,
            forall|k: int| t <= k < initial.len() ==> #[trigger] rows_view(rebuilt@)[k] == initial[k],
            forall|k: int| 0 <= k < t ==> {
                let after = (#[trigger] rows_view(rebuilt@)[k]);
                &&& after.id == kept_id(rows_view(established@), initial, initial[k])
                &&& after.display_name == initial[k].display_name
                &&& after.make_and_model == initial[k].make_and_model
                &&& after.candidates == initial[k].candidates
            },
        decreases rebuilt.len() - t,
    {
        let ghost before_step = rows_view(rebuilt@);
        match first_established_exec(established, &rebuilt[t]) {
            Some(k) => {
                let wanted = chars_of(established[k].id.as_str());
                let mut u: usize = 0;
                let mut is_taken = false;
                while u < taken.len()
                    invariant
                        u <= taken@.len(),
                        taken@.len() == initial.len(),
                        forall|x: int| 0 <= x < initial.len() ==> (#[trigger] taken@[x])@ == initial[x].id,
                        is_taken == exists|x: int| 0 <= x < u && (#[trigger] initial[x]).id == wanted@,
                    decreases taken.len() - u,
                {
                    proof {
                        assert(taken@[u as int]@ == initial[u as int].id);
                    }
                    if crate::text::eq_vec(&taken[u], &wanted) {
                        is_taken = true;
                    }
                    proof {
                        if !is_taken {
                            assert forall|x: int| 0 <= x < u + 1 implies (#[trigger] initial[x]).id != wanted@ by {
                                if x == u {
                                    assert(taken@[x]@ == initial[x].id);
                                }
                            }
                        }
                    }
                    u += 1;
                }
                proof {
                    assert(is_taken == id_taken(initial, wanted@));
                }
                if !is_taken {
                    rebuilt[t].id = string_of(wanted);
                }
                proof {
                    let now = rows_view(rebuilt@);
                    assert(before_step[t as int] == initial[t as int]);
                    assert(now[t as int].id == kept_id(rows_view(established@), initial, initial[t as int]));
                }
            },
            None => {
                proof {
                    assert(before_step[t as int] == initial[t as int]);
                }
            },
        }
        proof {
            let now = rows_view(rebuilt@);
            assert forall|k: int| t < k < initial.len() implies #[trigger] now[k] == initial[k] by {
                assert(now[k] == before_step[k]);
            }
            assert forall|k: int| 0 <= k < t implies #[trigger] now[k] == before_step[k] by {}
        }
        t += 1;
    }
}

// ------------------------------------------------------------ one application's reports

/// The identifiers that make two reports of one application the same
/// device: device UUID, serial number, DNS-SD service and device URI.
#[verifier::opaque]
pub open spec fn strong_keys(e: DeviceEvidenceView) -> Seq<Seq<char>> {
    (if present(e.device_uuid) { seq!["uuid:"@ + e.device_uuid->0] } else { Seq::empty() })
        + (if present(e.serial_number) { seq!["serial:"@ + e.serial_number->0] } else { Seq::empty() })
        + (if present(e.dns_sd_service) { seq!["dnssd:"@ + e.dns_sd_service->0] } else { Seq::empty() })
        + (if present(e.normalized_device_uri) { seq!["uri:"@ + e.normalized_device_uri->0] } else { Seq::empty() })
}

pub open spec fn obs_keys(o: PaDeviceObservation) -> Seq<Seq<char>> {
    strong_keys(o.identity@)
}

/// Whether two lists of identifiers have one in common.
pub open spec fn shares_key(a: Seq<Seq<char>>, b: Seq<Seq<char>>) -> bool {
    exists|x: int, y: int| 0 <= x < a.len() && 0 <= y < b.len() && #[trigger] a[x] == #[trigger] b[y]
}

/// The endpoint a report describes.
pub open spec fn endpoint_of(o: PaDeviceObservation) -> PaDeviceEndpointView {
    PaDeviceEndpointView { device_uri: o.device_uri@, transport: o.transport, preference: o.transport.rank() }
}

/// The make and model a report's device ID names, when it names any.
pub open spec fn founder_make_and_model(o: PaDeviceObservation) -> Option<Seq<char>> {
    match o.device_id {
        Some(id) => {
            let name = crate::devices::joined_make_model(crate::devices::id_manufacturer(id), crate::devices::id_model(id));
            if crate::text::trim(name).len() > 0 {
                Some(name)
            } else {
                None
            }
        },
        None => None,
    }
}

/// A candidate founded by a report: its identifier, application, name and
/// make and model; the report's device ID; its evidence (a serial number
/// or UUID it lacks may come from a later report); no driver checked yet.
pub open spec fn founded_by(c: CandidateView, o: PaDeviceObservation) -> bool {
    &&& c.id == o.id@
    &&& c.printer_application_id == o.printer_application_id@
    &&& c.display_name == o.display_name@
    &&& c.make_and_model == founder_make_and_model(o)
    &&& (o.device_id matches Some(id) ==> c.device_id == Some(id.raw_text()))
    &&& c.driver_match == PaDriverMatchView::Unchecked
    &&& c.identity.normalized_device_uri == o.identity@.normalized_device_uri
    &&& c.identity.dns_sd_service == o.identity@.dns_sd_service
    &&& c.identity.network_hostname == o.identity@.network_hostname
    &&& c.identity.network_port == o.identity@.network_port
    &&& (o.identity@.serial_number is Some ==> c.identity.serial_number == o.identity@.serial_number)
    &&& (o.identity@.device_uuid is Some ==> c.identity.device_uuid == o.identity@.device_uuid)
}

/// What merging the first `n` reports has built: candidates, the
/// identifiers each has absorbed, and the reports each holds.
pub open spec fn collapse_inv(
    cv: Seq<CandidateView>,
    aggs: Seq<Seq<Seq<char>>>,
    members: Seq<Seq<int>>,
    obs: Seq<PaDeviceObservation>,
    n: int,
) -> bool {
    &&& 0 <= n <= obs.len()
    &&& cv.len() == aggs.len() && aggs.len() == members.len()
    &&& forall|t: int| 0 <= t < members.len() ==> (#[trigger] members[t]).len() > 0
    &&& forall|t: int, x: int| 0 <= t < members.len() && 0 <= x < members[t].len() ==> 0 <= #[trigger] members[t][x] < n
    &&& forall|t: int, x: int, y: int| 0 <= t < members.len() && 0 <= x < y < members[t].len()
        ==> #[trigger] members[t][x] < #[trigger] members[t][y]
    &&& forall|j: int| 0 <= j < n ==> held(members, j)
    &&& forall|t: int, y: int| 0 <= t < aggs.len() && 0 <= y < aggs[t].len()
        ==> key_from_members(obs, members[t], #[trigger] aggs[t][y])
    &&& forall|t: int, x: int| 0 <= t < members.len() && 0 <= x < members[t].len() && members[t].len() > 1
        ==> has_partner(obs, members[t], #[trigger] members[t][x])
    &&& forall|t: int| 0 <= t < cv.len() ==> founded_by(#[trigger] cv[t], obs[members[t][0]])
    &&& forall|t: int| 0 <= t < cv.len() ==> (#[trigger] cv[t]).endpoints.len() > 0
    &&& forall|t: int, q: int| 0 <= t < cv.len() && 0 <= q < cv[t].endpoints.len()
        ==> endpoint_from_members(obs, members[t], #[trigger] cv[t].endpoints[q])
    &&& forall|j: int| 0 <= j < n ==> uri_listed(cv, #[trigger] obs[j].device_uri@)
    &&& forall|t: int, q1: int, q2: int| 0 <= t < cv.len() && 0 <= q1 < q2 < cv[t].endpoints.len()
        ==> (#[trigger] cv[t].endpoints[q1]).device_uri != (#[trigger] cv[t].endpoints[q2]).device_uri
}

pub open spec fn held(members: Seq<Seq<int>>, j: int) -> bool {
    exists|t: int| 0 <= t < members.len() && (#[trigger] members[t]).contains(j)
}

pub open spec fn key_from_members(obs: Seq<PaDeviceObservation>, m: Seq<int>, key: Seq<char>) -> bool {
    exists|x: int| 0 <= x < m.len() && obs_keys(obs[#[trigger] m[x]]).contains(key)
}

pub open spec fn has_partner(obs: Seq<PaDeviceObservation>, m: Seq<int>, j: int) -> bool {
    exists|x: int| 0 <= x < m.len() && #[trigger] m[x] != j && shares_key(obs_keys(obs[j]), obs_keys(obs[m[x]]))
}

pub open spec fn endpoint_from_members(obs: Seq<PaDeviceObservation>, m: Seq<int>, e: PaDeviceEndpointView) -> bool {
    exists|x: int| 0 <= x < m.len() && endpoint_of(obs[#[trigger] m[x]]) == e
}

pub open spec fn uri_listed(cv: Seq<CandidateView>, uri: Seq<char>) -> bool {
    exists|t: int, q: int| 0 <= t < cv.len() && 0 <= q < cv[t].endpoints.len() && (#[trigger] cv[t].endpoints[q]).device_uri == uri
}

fn key_with(prefix: &str, value: &Option<String>, keys: &mut Vec<Vec<char>>)
    ensures
        final(keys)@.len() >= old(keys)@.len(),
        forall|k: int| 0 <= k < old(keys)@.len() ==> #[trigger] final(keys)@[k] == old(keys)@[k],
        keys_seq(final(keys)@) == keys_seq(old(keys)@) + if present(opt_view(*value)) {
            seq![prefix@ + opt_view(*value)->0]
        } else {
            Seq::<Seq<char>>::empty()
        },
{
    if nonempty(value) {
        let k = with_prefix(prefix, value.as_ref().unwrap().as_str());
        let ghost before = keys@;
        keys.push(k);
        proof {
            assert(keys_seq(keys@) =~= keys_seq(before) + seq![prefix@ + opt_view(*value)->0]);
        }
    } else {
        proof {
            assert(keys_seq(keys@) =~= keys_seq(keys@) + Seq::<Seq<char>>::empty());
        }
    }
}

pub open spec fn keys_seq(keys: Seq<Vec<char>>) -> Seq<Seq<char>> {
    keys.map_values(|k: Vec<char>| k@)
}

fn strong_keys_exec(e: &DeviceEvidence) -> (r: Vec<Vec<char>>)
    ensures
        keys_seq(r@) == strong_keys(e@),
{
    let mut keys: Vec<Vec<char>> = Vec::new();
    proof {
        assert(keys_seq(keys@) =~= Seq::<Seq<char>>::empty());
    }
    key_with("uuid:", &e.device_uuid, &mut keys);
    key_with("serial:", &e.serial_number, &mut keys);
    key_with("dnssd:", &e.dns_sd_service, &mut keys);
    key_with("uri:", &e.normalized_device_uri, &mut keys);
    proof {
        reveal(strong_keys);
        assert(keys_seq(keys@) =~= strong_keys(e@));
    }
    keys
}

fn shares_key_exec(a: &Vec<Vec<char>>, b: &Vec<Vec<char>>) -> (r: bool)
    ensures
        r == shares_key(keys_seq(a@), keys_seq(b@)),
{
    let mut x: usize = 0;
    while x < a.len()
        invariant
            x <= a@.len(),
            forall|i: int, j: int| 0 <= i < x && 0 <= j < b@.len() ==> #[trigger] keys_seq(a@)[i] != #[trigger] keys_seq(b@)[j],
        decreases a.len() - x,
    {
        let mut y: usize = 0;
        while y < b.len()
            invariant
                x < a@.len(),
                y <= b@.len(),
                forall|i: int, j: int| 0 <= i < x && 0 <= j < b@.len() ==> #[trigger] keys_seq(a@)[i] != #[trigger] keys_seq(b@)[j],
                forall|j: int| 0 <= j < y ==> keys_seq(a@)[x as int] != #[trigger] keys_seq(b@)[j],
            decreases b.len() - y,
        {
            if crate::text::eq_vec(&a[x], &b[y]) {
                proof {
                    assert(keys_seq(a@)[x as int] == keys_seq(b@)[y as int]);
                }
                return true;
            }
            y += 1;
        }
        x += 1;
    }
    false
}

fn new_candidate(o: &PaDeviceObservation) -> (r: PaConfigurationCandidate)
    ensures
        founded_by(r@, *o),
        r@.endpoints == seq![endpoint_of(*o)],
{
    let make_and_model = match &o.device_id {
        Some(id) => crate::devices::make_and_model(id),
        None => None,
    };
    let device_id = match &o.device_id {
        Some(id) => Some(string_of(chars_of(id.raw()))),
        None => None,
    };
    let mut endpoints: Vec<PaDeviceEndpoint> = Vec::new();
    endpoints.push(PaDeviceEndpoint {
        device_uri: string_of(chars_of(o.device_uri.as_str())),
        transport: o.transport,
        preference: o.transport.preference(),
    });
    let r = PaConfigurationCandidate {
        id: string_of(chars_of(o.id.as_str())),
        printer_application_id: string_of(chars_of(o.printer_application_id.as_str())),
        endpoints,
        identity: o.identity.duplicate(),
        display_name: string_of(chars_of(o.display_name.as_str())),
        make_and_model,
        device_id,
        driver_match: PaDriverMatch::Unchecked,
    };
    proof {
        assert(r@.endpoints =~= seq![endpoint_of(*o)]);
    }
    r
}

/// What adding a report to a candidate leaves as it was: everything its
/// founding report gave it, and a serial number, UUID or device ID it
/// already had.
pub open spec fn preserves_founding(before: CandidateView, after: CandidateView) -> bool {
    &&& after.id == before.id
    &&& after.printer_application_id == before.printer_application_id
    &&& after.display_name == before.display_name
    &&& after.make_and_model == before.make_and_model
    &&& after.driver_match == before.driver_match
    &&& after.identity.normalized_device_uri == before.identity.normalized_device_uri
    &&& after.identity.dns_sd_service == before.identity.dns_sd_service
    &&& after.identity.network_hostname == before.identity.network_hostname
    &&& after.identity.network_port == before.identity.network_port
    &&& (before.identity.serial_number is Some ==> after.identity.serial_number == before.identity.serial_number)
    &&& (before.identity.device_uuid is Some ==> after.identity.device_uuid == before.identity.device_uuid)
    &&& (before.device_id is Some ==> after.device_id == before.device_id)
}

pub open spec fn lists_uri(c: CandidateView, uri: Seq<char>) -> bool {
    exists|q: int| 0 <= q < c.endpoints.len() && (#[trigger] c.endpoints[q]).device_uri == uri
}

/// Adds a report's endpoint to a candidate unless its URI is already
/// listed, and fills a missing device ID, serial number or UUID from it.
fn add_endpoint(candidate: &mut PaConfigurationCandidate, o: &PaDeviceObservation)
    ensures
        preserves_founding(old(candidate)@, final(candidate)@),
        lists_uri(old(candidate)@, o.device_uri@) ==> final(candidate)@.endpoints == old(candidate)@.endpoints,
        !lists_uri(old(candidate)@, o.device_uri@) ==> final(candidate)@.endpoints == old(candidate)@.endpoints.push(endpoint_of(*o)),
{
    let uri = chars_of(o.device_uri.as_str());
    let mut listed = false;
    let mut q: usize = 0;
    while q < candidate.endpoints.len()
        invariant
            q <= candidate.endpoints@.len(),
            uri@ == o.device_uri@,
            listed == exists|x: int| 0 <= x < q && (#[trigger] candidate@.endpoints[x]).device_uri == uri@,
        decreases candidate.endpoints.len() - q,
    {
        proof {
            assert(candidate@.endpoints[q as int] == candidate.endpoints@[q as int]@);
        }
        if crate::text::eq_vec(&chars_of(candidate.endpoints[q].device_uri.as_str()), &uri) {
            listed = true;
        }
        q += 1;
    }
    let ghost before = candidate@;
    if !listed {
        candidate.endpoints.push(PaDeviceEndpoint {
            device_uri: string_of(uri),
            transport: o.transport,
            preference: o.transport.preference(),
        });
        proof {
            assert(candidate@.endpoints =~= before.endpoints.push(endpoint_of(*o)));
        }
    }
    if candidate.device_id.is_none() {
        candidate.device_id = match &o.device_id {
            Some(id) => Some(string_of(chars_of(id.raw()))),
            None => None,
        };
    }
    if candidate.identity.serial_number.is_none() {
        candidate.identity.serial_number = copy_opt(&o.identity.serial_number);
    }
    if candidate.identity.device_uuid.is_none() {
        candidate.identity.device_uuid = copy_opt(&o.identity.device_uuid);
    }
}

pub open spec fn aggs_view(aggs: Seq<Vec<Vec<char>>>) -> Seq<Seq<Seq<char>>> {
    aggs.map_values(|a: Vec<Vec<char>>| keys_seq(a@))
}

fn find_agreeing(aggs: &Vec<Vec<Vec<char>>>, keys: &Vec<Vec<char>>) -> (r: Option<usize>)
    ensures
        match r {
            Some(t) => t < aggs@.len() && shares_key(keys_seq(keys@), aggs_view(aggs@)[t as int]),
            None => forall|t: int| 0 <= t < aggs@.len() ==> !shares_key(keys_seq(keys@), #[trigger] aggs_view(aggs@)[t]),
        },
{
    let mut t: usize = 0;
    while t < aggs.len()
        invariant
            t <= aggs@.len(),
            forall|u: int| 0 <= u < t ==> !shares_key(keys_seq(keys@), #[trigger] aggs_view(aggs@)[u]),
        decreases aggs.len() - t,
    {
        if shares_key_exec(keys, &aggs[t]) {
            return Some(t);
        }
        t += 1;
    }
    None
}

proof fn lemma_shares_key_symmetric(a: Seq<Seq<char>>, b: Seq<Seq<char>>)
    requires
        shares_key(a, b),
    ensures
        shares_key(b, a),
{
    let (x, y) = choose|x: int, y: int| 0 <= x < a.len() && 0 <= y < b.len() && #[trigger] a[x] == #[trigger] b[y];
    assert(b[y] == a[x]);
}

/// One report joining candidate `t`.
pub open spec fn join_step(
    cv0: Seq<CandidateView>,
    cv1: Seq<CandidateView>,
    ag0: Seq<Seq<Seq<char>>>,
    ag1: Seq<Seq<Seq<char>>>,
    m0: Seq<Seq<int>>,
    obs: Seq<PaDeviceObservation>,
    n: int,
    t: int,
) -> bool {
    &&& collapse_inv(cv0, ag0, m0, obs, n)
    &&& n < obs.len()
    &&& 0 <= t < cv0.len()
    &&& shares_key(obs_keys(obs[n]), ag0[t])
    &&& cv1.len() == cv0.len()
    &&& forall|u: int| 0 <= u < cv0.len() && u != t ==> #[trigger] cv1[u] == cv0[u]
    &&& preserves_founding(cv0[t], cv1[t])
    &&& (lists_uri(cv0[t], obs[n].device_uri@) ==> cv1[t].endpoints == cv0[t].endpoints)
    &&& (!lists_uri(cv0[t], obs[n].device_uri@) ==> cv1[t].endpoints == cv0[t].endpoints.push(endpoint_of(obs[n])))
    &&& ag1 == ag0.update(t, ag0[t] + obs_keys(obs[n]))
}

proof fn lemma_join_members(
    cv0: Seq<CandidateView>, cv1: Seq<CandidateView>, ag0: Seq<Seq<Seq<char>>>, ag1: Seq<Seq<Seq<char>>>,
    m0: Seq<Seq<int>>, obs: Seq<PaDeviceObservation>, n: int, t: int,
)
    requires
        join_step(cv0, cv1, ag0, ag1, m0, obs, n, t),
    ensures
        ({
            let m1 = m0.update(t, m0[t].push(n));
            &&& forall|u: int| 0 <= u < m1.len() ==> (#[trigger] m1[u]).len() > 0
            &&& forall|u: int, x: int| 0 <= u < m1.len() && 0 <= x < m1[u].len() ==> 0 <= #[trigger] m1[u][x] < n + 1
            &&& forall|u: int, x: int, y: int| 0 <= u < m1.len() && 0 <= x < y < m1[u].len()
                ==> #[trigger] m1[u][x] < #[trigger] m1[u][y]
            &&& forall|j: int| 0 <= j < n + 1 ==> held(m1, j)
        }),
{
    let m1 = m0.update(t, m0[t].push(n));
    let mt = m1[t];
    assert(mt == m0[t].push(n));
    assert forall|u: int| 0 <= u < m1.len() && u != t implies #[trigger] m1[u] == m0[u] by {}
    assert forall|u: int, x: int| 0 <= u < m1.len() && 0 <= x < m1[u].len() implies 0 <= #[trigger] m1[u][x] < n + 1 by {
        if u == t && x < m0[t].len() {
            assert(m1[u][x] == m0[u][x]);
        }
    }
    assert forall|u: int, x: int, y: int| 0 <= u < m1.len() && 0 <= x < y < m1[u].len()
        implies #[trigger] m1[u][x] < #[trigger] m1[u][y] by {
        if u == t {
            assert(m1[u][x] == m0[u][x]);
            if y < m0[t].len() {
                assert(m1[u][y] == m0[u][y]);
            } else {
                assert(m0[u][x] < n);
            }
        }
    }
    assert forall|j: int| 0 <= j < n + 1 implies held(m1, j) by {
        if j == n {
            assert(mt[m0[t].len() as int] == n);
            assert(mt.contains(n));
        } else {
            assert(held(m0, j));
            let u = choose|u: int| 0 <= u < m0.len() && (#[trigger] m0[u]).contains(j);
            let x = choose|x: int| 0 <= x < m0[u].len() && m0[u][x] == j;
            if u == t {
                assert(m1[u][x] == j);
            }
            assert(m1[u].contains(j));
        }
    }
    assert forall|u: int| 0 <= u < m1.len() implies (#[trigger] m1[u]).len() > 0 by {
        if u != t {
            assert(m1[u] == m0[u]);
        }
    }
}

proof fn lemma_join_keys(
    cv0: Seq<CandidateView>, cv1: Seq<CandidateView>, ag0: Seq<Seq<Seq<char>>>, ag1: Seq<Seq<Seq<char>>>,
    m0: Seq<Seq<int>>, obs: Seq<PaDeviceObservation>, n: int, t: int,
)
    requires
        join_step(cv0, cv1, ag0, ag1, m0, obs, n, t),
    ensures
        ({
            let m1 = m0.update(t, m0[t].push(n));
            forall|u: int, y: int| 0 <= u < ag1.len() && 0 <= y < ag1[u].len()
                ==> key_from_members(obs, m1[u], #[trigger] ag1[u][y])
        }),
{
    let m1 = m0.update(t, m0[t].push(n));
    assert forall|u: int, y: int| 0 <= u < ag1.len() && 0 <= y < ag1[u].len()
        implies key_from_members(obs, m1[u], #[trigger] ag1[u][y]) by {
        if u == t {
            if y < ag0[t].len() {
                assert(ag1[u][y] == ag0[t][y]);
                assert(key_from_members(obs, m0[t], ag0[t][y]));
                let x = choose|x: int| 0 <= x < m0[t].len() && obs_keys(obs[#[trigger] m0[t][x]]).contains(ag0[t][y]);
                assert(m1[u][x] == m0[t][x]);
            } else {
                let k = y - ag0[t].len();
                assert(ag1[u][y] == obs_keys(obs[n])[k]);
                assert(m1[u][m0[t].len() as int] == n);
                assert(obs_keys(obs[m1[u][m0[t].len() as int]]).contains(ag1[u][y]));
            }
        } else {
            assert(ag1[u] == ag0[u]);
            assert(m1[u] == m0[u]);
        }
    }
}

proof fn lemma_partner_after_join(obs: Seq<PaDeviceObservation>, mt0: Seq<int>, agt: Seq<Seq<char>>, n: int)
    requires
        0 <= n < obs.len(),
        mt0.len() > 0,
        forall|x: int| 0 <= x < mt0.len() ==> 0 <= #[trigger] mt0[x] < n,
        forall|y: int| 0 <= y < agt.len() ==> key_from_members(obs, mt0, #[trigger] agt[y]),
        shares_key(obs_keys(obs[n]), agt),
        forall|x: int| 0 <= x < mt0.len() && mt0.len() > 1 ==> has_partner(obs, mt0, #[trigger] mt0[x]),
    ensures
        forall|x: int| 0 <= x < mt0.len() + 1 ==> has_partner(obs, mt0.push(n), #[trigger] mt0.push(n)[x]),
{
    let mt = mt0.push(n);
    let (kx, ky) = choose|x: int, y: int| 0 <= x < obs_keys(obs[n]).len() && 0 <= y < agt.len()
        && #[trigger] obs_keys(obs[n])[x] == #[trigger] agt[y];
    assert(key_from_members(obs, mt0, agt[ky]));
    let px = choose|x: int| 0 <= x < mt0.len() && obs_keys(obs[#[trigger] mt0[x]]).contains(agt[ky]);
    let p = mt0[px];
    assert(shares_key(obs_keys(obs[n]), obs_keys(obs[p]))) by {
        let z = choose|z: int| 0 <= z < obs_keys(obs[p]).len() && obs_keys(obs[p])[z] == agt[ky];
        assert(obs_keys(obs[n])[kx] == obs_keys(obs[p])[z]);
    }
    lemma_shares_key_symmetric(obs_keys(obs[n]), obs_keys(obs[p]));
    assert(mt[px] == p);
    assert forall|x: int| 0 <= x < mt0.len() + 1 implies has_partner(obs, mt, #[trigger] mt[x]) by {
        if x == mt0.len() {
            assert(mt[x] == n);
            assert(mt[px] != n);
        } else {
            assert(mt[x] == mt0[x]);
            if mt0.len() > 1 {
                assert(has_partner(obs, mt0, mt0[x]));
                let w = choose|w: int| 0 <= w < mt0.len() && #[trigger] mt0[w] != mt0[x]
                    && shares_key(obs_keys(obs[mt0[x]]), obs_keys(obs[mt0[w]]));
                assert(mt[w] == mt0[w]);
            } else {
                assert(x == 0 && px == 0);
                assert(mt[mt0.len() as int] == n);
            }
        }
    }
}

proof fn lemma_join_partners(
    cv0: Seq<CandidateView>, cv1: Seq<CandidateView>, ag0: Seq<Seq<Seq<char>>>, ag1: Seq<Seq<Seq<char>>>,
    m0: Seq<Seq<int>>, obs: Seq<PaDeviceObservation>, n: int, t: int,
)
    requires
        join_step(cv0, cv1, ag0, ag1, m0, obs, n, t),
    ensures
        ({
            let m1 = m0.update(t, m0[t].push(n));
            forall|u: int, x: int| 0 <= u < m1.len() && 0 <= x < m1[u].len() && m1[u].len() > 1
                ==> has_partner(obs, m1[u], #[trigger] m1[u][x])
        }),
{
    let m1 = m0.update(t, m0[t].push(n));
    let mt0 = m0[t];
    let agt = ag0[t];
    assert forall|x: int| 0 <= x < mt0.len() implies 0 <= #[trigger] mt0[x] < n by {}
    assert forall|y: int| 0 <= y < agt.len() implies key_from_members(obs, mt0, #[trigger] agt[y]) by {}
    assert forall|x: int| 0 <= x < mt0.len() && mt0.len() > 1 implies has_partner(obs, mt0, #[trigger] mt0[x]) by {}
    lemma_partner_after_join(obs, mt0, agt, n);
    assert forall|u: int, x: int| 0 <= u < m1.len() && 0 <= x < m1[u].len() && m1[u].len() > 1
        implies has_partner(obs, m1[u], #[trigger] m1[u][x]) by {
        if u == t {
            assert(m1[u] == mt0.push(n));
        } else {
            assert(m1[u] == m0[u]);
        }
    }
}

proof fn lemma_join_candidates(
    cv0: Seq<CandidateView>, cv1: Seq<CandidateView>, ag0: Seq<Seq<Seq<char>>>, ag1: Seq<Seq<Seq<char>>>,
    m0: Seq<Seq<int>>, obs: Seq<PaDeviceObservation>, n: int, t: int,
)
    requires
        join_step(cv0, cv1, ag0, ag1, m0, obs, n, t),
    ensures
        ({
            let m1 = m0.update(t, m0[t].push(n));
            &&& forall|u: int| 0 <= u < cv1.len() ==> founded_by(#[trigger] cv1[u], obs[m1[u][0]])
            &&& forall|u: int| 0 <= u < cv1.len() ==> (#[trigger] cv1[u]).endpoints.len() > 0
            &&& forall|u: int, q: int| 0 <= u < cv1.len() && 0 <= q < cv1[u].endpoints.len()
                ==> endpoint_from_members(obs, m1[u], #[trigger] cv1[u].endpoints[q])
        }),
{
    let m1 = m0.update(t, m0[t].push(n));
    assert forall|u: int| 0 <= u < cv1.len() implies founded_by(#[trigger] cv1[u], obs[m1[u][0]]) by {
        if u == t {
            assert(m1[u][0] == m0[u][0]);
            assert(founded_by(cv0[t], obs[m0[t][0]]));
        } else {
            assert(m1[u] == m0[u]);
        }
    }
    assert forall|u: int| 0 <= u < cv1.len() implies (#[trigger] cv1[u]).endpoints.len() > 0 by {
        if u == t {
            assert(cv0[t].endpoints.len() > 0);
        }
    }
    assert forall|u: int, q: int| 0 <= u < cv1.len() && 0 <= q < cv1[u].endpoints.len()
        implies endpoint_from_members(obs, m1[u], #[trigger] cv1[u].endpoints[q]) by {
        if u == t {
            if q < cv0[t].endpoints.len() {
                assert(cv1[u].endpoints[q] == cv0[t].endpoints[q]);
                assert(endpoint_from_members(obs, m0[t], cv0[t].endpoints[q]));
                let x = choose|x: int| 0 <= x < m0[t].len() && endpoint_of(obs[#[trigger] m0[t][x]]) == cv0[t].endpoints[q];
                assert(m1[u][x] == m0[t][x]);
            } else {
                assert(cv1[u].endpoints[q] == endpoint_of(obs[n]));
                assert(m1[u][m0[t].len() as int] == n);
            }
        } else {
            assert(m1[u] == m0[u]);
        }
    }
}

proof fn lemma_join_uris(
    cv0: Seq<CandidateView>, cv1: Seq<CandidateView>, ag0: Seq<Seq<Seq<char>>>, ag1: Seq<Seq<Seq<char>>>,
    m0: Seq<Seq<int>>, obs: Seq<PaDeviceObservation>, n: int, t: int,
)
    requires
        join_step(cv0, cv1, ag0, ag1, m0, obs, n, t),
    ensures
        forall|j: int| 0 <= j < n + 1 ==> uri_listed(cv1, #[trigger] obs[j].device_uri@),
        forall|u: int, q1: int, q2: int| 0 <= u < cv1.len() && 0 <= q1 < q2 < cv1[u].endpoints.len()
            ==> (#[trigger] cv1[u].endpoints[q1]).device_uri != (#[trigger] cv1[u].endpoints[q2]).device_uri,
{
    assert forall|j: int| 0 <= j < n + 1 implies uri_listed(cv1, #[trigger] obs[j].device_uri@) by {
        if j == n {
            if lists_uri(cv0[t], obs[n].device_uri@) {
                let q = choose|q: int| 0 <= q < cv0[t].endpoints.len() && (#[trigger] cv0[t].endpoints[q]).device_uri == obs[n].device_uri@;
                assert(cv1[t].endpoints[q] == cv0[t].endpoints[q]);
            } else {
                assert(cv1[t].endpoints[cv0[t].endpoints.len() as int].device_uri == obs[n].device_uri@);
            }
        } else {
            assert(uri_listed(cv0, obs[j].device_uri@));
            let (u, q) = choose|u: int, q: int| 0 <= u < cv0.len() && 0 <= q < cv0[u].endpoints.len()
                && (#[trigger] cv0[u].endpoints[q]).device_uri == obs[j].device_uri@;
            if u == t {
                assert(cv1[u].endpoints[q] == cv0[u].endpoints[q]);
            } else {
                assert(cv1[u] == cv0[u]);
            }
        }
    }
    assert forall|u: int, q1: int, q2: int| 0 <= u < cv1.len() && 0 <= q1 < q2 < cv1[u].endpoints.len()
        implies (#[trigger] cv1[u].endpoints[q1]).device_uri != (#[trigger] cv1[u].endpoints[q2]).device_uri by {
        if u == t {
            assert(cv1[u].endpoints[q1] == cv0[t].endpoints[q1]);
            if q2 < cv0[t].endpoints.len() {
                assert(cv1[u].endpoints[q2] == cv0[t].endpoints[q2]);
            } else if cv0[t].endpoints[q1].device_uri == obs[n].device_uri@ {
                assert(lists_uri(cv0[t], obs[n].device_uri@));
            }
        } else {
            assert(cv1[u] == cv0[u]);
        }
    }
}

#[verifier::spinoff_prover]
#[verifier::rlimit(40)]
proof fn lemma_join_keeps(
    cv0: Seq<CandidateView>, cv1: Seq<CandidateView>, ag0: Seq<Seq<Seq<char>>>, ag1: Seq<Seq<Seq<char>>>,
    m0: Seq<Seq<int>>, obs: Seq<PaDeviceObservation>, n: int, t: int,
)
    requires
        join_step(cv0, cv1, ag0, ag1, m0, obs, n, t),
    ensures
        collapse_inv(cv1, ag1, m0.update(t, m0[t].push(n)), obs, n + 1),
{
    lemma_join_members(cv0, cv1, ag0, ag1, m0, obs, n, t);
    lemma_join_keys(cv0, cv1, ag0, ag1, m0, obs, n, t);
    lemma_join_partners(cv0, cv1, ag0, ag1, m0, obs, n, t);
    lemma_join_candidates(cv0, cv1, ag0, ag1, m0, obs, n, t);
    lemma_join_uris(cv0, cv1, ag0, ag1, m0, obs, n, t);
}

proof fn lemma_found_keeps(
    cv0: Seq<CandidateView>,
    ag0: Seq<Seq<Seq<char>>>,
    m0: Seq<Seq<int>>,
    obs: Seq<PaDeviceObservation>,
    n: int,
    c: CandidateView,
)
    requires
        collapse_inv(cv0, ag0, m0, obs, n),
        n < obs.len(),
        founded_by(c, obs[n]),
        c.endpoints == seq![endpoint_of(obs[n])],
    ensures
        collapse_inv(cv0.push(c), ag0.push(obs_keys(obs[n])), m0.push(seq![n]), obs, n + 1),
{
    let cv1 = cv0.push(c);
    let ag1 = ag0.push(obs_keys(obs[n]));
    let m1 = m0.push(seq![n]);
    let t = cv0.len() as int;
    assert forall|u: int| 0 <= u < t implies #[trigger] m1[u] == m0[u] && cv1[u] == cv0[u] && ag1[u] == ag0[u] by {}
    assert forall|j: int| 0 <= j < n + 1 implies held(m1, j) by {
        if j == n {
            assert(m1[t][0] == n);
            assert(m1[t].contains(n));
        } else {
            assert(held(m0, j));
            let u = choose|u: int| 0 <= u < m0.len() && (#[trigger] m0[u]).contains(j);
            assert(m1[u] == m0[u]);
        }
    }
    assert forall|u: int, y: int| 0 <= u < ag1.len() && 0 <= y < ag1[u].len()
        implies key_from_members(obs, m1[u], #[trigger] ag1[u][y]) by {
        if u == t {
            assert(m1[u][0] == n);
            assert(obs_keys(obs[m1[u][0]]).contains(ag1[u][y]));
        }
    }
    assert forall|u: int, x: int| 0 <= u < m1.len() && 0 <= x < m1[u].len() && m1[u].len() > 1
        implies has_partner(obs, m1[u], #[trigger] m1[u][x]) by {
        if u == t {
        }
    }
    assert forall|u: int, q: int| 0 <= u < cv1.len() && 0 <= q < cv1[u].endpoints.len()
        implies endpoint_from_members(obs, m1[u], #[trigger] cv1[u].endpoints[q]) by {
        if u == t {
            assert(m1[u][0] == n);
        }
    }
    assert forall|j: int| 0 <= j < n + 1 implies uri_listed(cv1, #[trigger] obs[j].device_uri@) by {
        if j == n {
            assert(cv1[t].endpoints[0].device_uri == obs[n].device_uri@);
        } else {
            assert(uri_listed(cv0, obs[j].device_uri@));
            let (u, q) = choose|u: int, q: int| 0 <= u < cv0.len() && 0 <= q < cv0[u].endpoints.len()
                && (#[trigger] cv0[u].endpoints[q]).device_uri == obs[j].device_uri@;
            assert(cv1[u] == cv0[u]);
        }
    }
}

fn absorb_report(
    cands: &mut Vec<PaConfigurationCandidate>,
    aggs: &mut Vec<Vec<Vec<char>>>,
    o: &PaDeviceObservation,
    Ghost(members): Ghost<Seq<Seq<int>>>,
    Ghost(obs): Ghost<Seq<PaDeviceObservation>>,
    Ghost(n): Ghost<int>,
) -> (r: Ghost<Seq<Seq<int>>>)
    requires
        collapse_inv(candidates_view(old(cands)@), aggs_view(old(aggs)@), members, obs, n),
        n < obs.len(),
        *o == obs[n],
    ensures
        collapse_inv(candidates_view(final(cands)@), aggs_view(final(aggs)@), r@, obs, n + 1),
{
    let mut keys = strong_keys_exec(&o.identity);
    match find_agreeing(aggs, &keys) {
        Some(t) => {
            let ghost cv0 = candidates_view(cands@);
            let ghost ag0 = aggs_view(aggs@);
            let ghost c0 = cands@[t as int]@;
            let ghost k0 = keys_seq(keys@);
            add_endpoint(&mut cands[t], o);
            let ghost a0 = aggs@[t as int]@;
            aggs[t].append(&mut keys);
            proof {
                let cv1 = candidates_view(cands@);
                let ag1 = aggs_view(aggs@);
                assert(cv0[t as int] == c0);
                assert forall|u: int| 0 <= u < cv0.len() && u != t implies #[trigger] cv1[u] == cv0[u] by {}
                assert(ag1[t as int] =~= ag0[t as int] + obs_keys(obs[n]));
                assert(ag1 =~= ag0.update(t as int, ag0[t as int] + obs_keys(obs[n])));
                lemma_join_keeps(cv0, cv1, ag0, ag1, members, obs, n, t as int);
            }
            Ghost(members.update(t as int, members[t as int].push(n)))
        },
        None => {
            let ghost cv0 = candidates_view(cands@);
            let ghost ag0 = aggs_view(aggs@);
            let c = new_candidate(o);
            let ghost cv = c@;
            cands.push(c);
            aggs.push(keys);
            proof {
                assert(candidates_view(cands@) =~= cv0.push(cv));
                assert(aggs_view(aggs@) =~= ag0.push(obs_keys(obs[n])));
                lemma_found_keeps(cv0, ag0, members, obs, n, cv);
            }
            Ghost(members.push(seq![n]))
        },
    }
}

/// Whether endpoint `a` is tried before endpoint `b`: by preference, then
/// by URI.
pub open spec fn endpoint_before(a: PaDeviceEndpointView, b: PaDeviceEndpointView) -> bool {
    a.preference < b.preference || (a.preference == b.preference && lex_lt(a.device_uri, b.device_uri))
}

pub open spec fn distinct_uris(e: Seq<PaDeviceEndpointView>) -> bool {
    forall|q1: int, q2: int| 0 <= q1 < q2 < e.len() ==> (#[trigger] e[q1]).device_uri != (#[trigger] e[q2]).device_uri
}

pub open spec fn endpoints_in_order(e: Seq<PaDeviceEndpointView>) -> bool {
    forall|a: int, b: int| 0 <= a < b < e.len() ==> !endpoint_before(#[trigger] e[b], #[trigger] e[a])
}

proof fn lemma_endpoint_before_order(a: PaDeviceEndpointView, b: PaDeviceEndpointView, c: PaDeviceEndpointView)
    ensures
        !endpoint_before(a, a),
        endpoint_before(a, b) && endpoint_before(b, c) ==> endpoint_before(a, c),
{
    crate::text::lemma_lex_irreflexive(a.device_uri);
    if endpoint_before(a, b) && endpoint_before(b, c) && a.preference == b.preference && b.preference == c.preference {
        crate::text::lemma_lex_transitive(a.device_uri, b.device_uri, c.device_uri);
    }
}

/// Orders endpoints by preference, then by URI.
fn sort_endpoints(endpoints: Vec<PaDeviceEndpoint>) -> (r: Vec<PaDeviceEndpoint>)
    requires
        distinct_uris(endpoints_view(endpoints@)),
    ensures
        distinct_uris(endpoints_view(r@)),
        endpoints_in_order(endpoints_view(r@)),
        endpoints_view(r@).len() == endpoints_view(endpoints@).len(),
        forall|e: PaDeviceEndpointView| endpoints_view(r@).contains(e) <==> endpoints_view(endpoints@).contains(e),
{
    let ghost input = endpoints_view(endpoints@);
    let mut rest = endpoints;
    let mut sorted: Vec<PaDeviceEndpoint> = Vec::new();
    while rest.len() > 0
        invariant
            distinct_uris(input),
            distinct_uris(endpoints_view(sorted@)),
            endpoints_in_order(endpoints_view(sorted@)),
            endpoints_view(rest@) == input.take(endpoints_view(rest@).len() as int),
            rest@.len() <= input.len(),
            sorted@.len() + rest@.len() == input.len(),
            forall|e: PaDeviceEndpointView| endpoints_view(sorted@).contains(e) <==> exists|k: int|
                rest@.len() <= k < input.len() && #[trigger] input[k] == e,
        decreases rest.len(),
    {
        let ghost n = rest@.len() as int;
        let ghost rb = rest@;
        let e = rest.pop().unwrap();
        proof {
            assert(e == rb[n - 1]);
            assert(endpoints_view(rb)[n - 1] == input[n - 1]);
            assert(endpoints_view(rest@) =~= input.take(n - 1));
        }
        let ghost x = e@;
        let ghost before = endpoints_view(sorted@);
        let mut p: usize = 0;
        while p < sorted.len() && !(e.preference < sorted[p].preference || (e.preference == sorted[p].preference
            && crate::text::lex_lt_exec(&chars_of(e.device_uri.as_str()), &chars_of(sorted[p].device_uri.as_str()))))
            invariant
                p <= sorted@.len(),
                before == endpoints_view(sorted@),
                x == e@,
                forall|k: int| 0 <= k < p ==> !endpoint_before(x, #[trigger] before[k]),
            decreases sorted.len() - p,
        {
            proof {
                assert(before[p as int] == sorted@[p as int]@);
            }
            p += 1;
        }
        proof {
            if p < sorted@.len() {
                assert(before[p as int] == sorted@[p as int]@);
            }
        }
        sorted.insert(p, e);
        proof {
            let after = endpoints_view(sorted@);
            assert(after =~= before.insert(p as int, x));
            assert forall|a: int, b: int| 0 <= a < b < after.len() implies !endpoint_before(#[trigger] after[b], #[trigger] after[a]) by {
                if b < p {
                    assert(after[a] == before[a] && after[b] == before[b]);
                } else if b == p {
                    assert(after[a] == before[a]);
                } else if a == p {
                    assert(after[b] == before[b - 1]);
                    assert(endpoint_before(x, before[p as int]));
                    lemma_endpoint_before_order(before[b - 1], x, before[p as int]);
                    lemma_endpoint_before_order(before[p as int], x, before[p as int]);
                } else if a < p {
                    assert(after[a] == before[a] && after[b] == before[b - 1]);
                } else {
                    assert(after[a] == before[a - 1] && after[b] == before[b - 1]);
                }
            }
            assert forall|q: int| 0 <= q < before.len() implies (#[trigger] before[q]).device_uri != x.device_uri by {
                assert(before.contains(before[q]));
                let k = choose|k: int| n <= k < input.len() && #[trigger] input[k] == before[q];
                assert(input[n - 1] == x);
            }
            assert forall|q1: int, q2: int| 0 <= q1 < q2 < after.len() implies (#[trigger] after[q1]).device_uri
                != (#[trigger] after[q2]).device_uri by {
                if q2 < p {
                    assert(after[q1] == before[q1] && after[q2] == before[q2]);
                } else if q2 == p {
                    assert(after[q1] == before[q1]);
                } else if q1 == p {
                    assert(after[q2] == before[q2 - 1]);
                } else if q1 < p {
                    assert(after[q1] == before[q1] && after[q2] == before[q2 - 1]);
                } else {
                    assert(after[q1] == before[q1 - 1] && after[q2] == before[q2 - 1]);
                }
            }
            assert forall|y: PaDeviceEndpointView| after.contains(y) <==> exists|k: int|
                n - 1 <= k < input.len() && #[trigger] input[k] == y by {
                if after.contains(y) {
                    let k = choose|k: int| 0 <= k < after.len() && after[k] == y;
                    if k < p {
                        assert(before[k] == y);
                        assert(before.contains(y));
                    } else if k > p {
                        assert(before[k - 1] == y);
                        assert(before.contains(y));
                    } else {
                        assert(input[n - 1] == y);
                    }
                }
                if exists|k: int| n - 1 <= k < input.len() && #[trigger] input[k] == y {
                    let k = choose|k: int| n - 1 <= k < input.len() && #[trigger] input[k] == y;
                    if k == n - 1 {
                        assert(after[p as int] == y);
                    } else {
                        assert(before.contains(y));
                        let q = choose|q: int| 0 <= q < before.len() && before[q] == y;
                        if q < p {
                            assert(after[q] == y);
                        } else {
                            assert(after[q + 1] == y);
                        }
                    }
                }
            }
        }
    }
    proof {
        let out = endpoints_view(sorted@);
        assert forall|e: PaDeviceEndpointView| out.contains(e) <==> input.contains(e) by {
            if input.contains(e) {
                let k = choose|k: int| 0 <= k < input.len() && input[k] == e;
                assert(input[k] == e);
            }
        }
    }
    sorted
}

pub open spec fn ids_in_order(c: Seq<CandidateView>) -> bool {
    forall|a: int, b: int| 0 <= a < b < c.len() ==> !lex_lt(#[trigger] c[b].id, #[trigger] c[a].id)
}

/// Orders candidates by identifier.
fn sort_candidates(candidates: Vec<PaConfigurationCandidate>) -> (r: Vec<PaConfigurationCandidate>)
    ensures
        ids_in_order(candidates_view(r@)),
        forall|c: CandidateView| candidates_view(r@).contains(c) <==> candidates_view(candidates@).contains(c),
{
    let ghost input = candidates_view(candidates@);
    let mut rest = candidates;
    let mut sorted: Vec<PaConfigurationCandidate> = Vec::new();
    while rest.len() > 0
        invariant
            ids_in_order(candidates_view(sorted@)),
            candidates_view(rest@) == input.take(candidates_view(rest@).len() as int),
            rest@.len() <= input.len(),
            forall|c: CandidateView| candidates_view(sorted@).contains(c) <==> exists|k: int|
                rest@.len() <= k < input.len() && #[trigger] input[k] == c,
        decreases rest.len(),
    {
        let ghost n = rest@.len() as int;
        let ghost rb = rest@;
        let c = rest.pop().unwrap();
        proof {
            assert(c == rb[n - 1]);
            assert(candidates_view(rb)[n - 1] == input[n - 1]);
            assert(candidates_view(rest@) =~= input.take(n - 1));
        }
        let ghost x = c@;
        let ghost before = candidates_view(sorted@);
        let id = chars_of(c.id.as_str());
        let mut p: usize = 0;
        while p < sorted.len() && !crate::text::lex_lt_exec(&id, &chars_of(sorted[p].id.as_str()))
            invariant
                p <= sorted@.len(),
                before == candidates_view(sorted@),
                x == c@,
                id@ == x.id,
                forall|k: int| 0 <= k < p ==> !lex_lt(x.id, #[trigger] before[k].id),
            decreases sorted.len() - p,
        {
            proof {
                assert(before[p as int] == sorted@[p as int]@);
            }
            p += 1;
        }
        proof {
            if p < sorted@.len() {
                assert(before[p as int] == sorted@[p as int]@);
            }
        }
        sorted.insert(p, c);
        proof {
            let after = candidates_view(sorted@);
            assert(after =~= before.insert(p as int, x));
            assert forall|a: int, b: int| 0 <= a < b < after.len() implies !lex_lt(#[trigger] after[b].id, #[trigger] after[a].id) by {
                if b < p {
                    assert(after[a] == before[a] && after[b] == before[b]);
                } else if b == p {
                    assert(after[a] == before[a]);
                } else if a == p {
                    assert(after[b] == before[b - 1]);
                    assert(lex_lt(x.id, before[p as int].id));
                    if lex_lt(before[b - 1].id, x.id) {
                        crate::text::lemma_lex_transitive(before[b - 1].id, x.id, before[p as int].id);
                        if b - 1 == p {
                            crate::text::lemma_lex_irreflexive(before[p as int].id);
                        }
                    }
                } else if a < p {
                    assert(after[a] == before[a] && after[b] == before[b - 1]);
                } else {
                    assert(after[a] == before[a - 1] && after[b] == before[b - 1]);
                }
            }
            assert forall|y: CandidateView| after.contains(y) <==> exists|k: int|
                n - 1 <= k < input.len() && #[trigger] input[k] == y by {
                if after.contains(y) {
                    let k = choose|k: int| 0 <= k < after.len() && after[k] == y;
                    if k < p {
                        assert(before[k] == y);
                        assert(before.contains(y));
                    } else if k > p {
                        assert(before[k - 1] == y);
                        assert(before.contains(y));
                    } else {
                        assert(input[n - 1] == y);
                    }
                }
                if exists|k: int| n - 1 <= k < input.len() && #[trigger] input[k] == y {
                    let k = choose|k: int| n - 1 <= k < input.len() && #[trigger] input[k] == y;
                    if k == n - 1 {
                        assert(after[p as int] == y);
                    } else {
                        assert(before.contains(y));
                        let q = choose|q: int| 0 <= q < before.len() && before[q] == y;
                        if q < p {
                            assert(after[q] == y);
                        } else {
                            assert(after[q + 1] == y);
                        }
                    }
                }
            }
        }
    }
    proof {
        let out = candidates_view(sorted@);
        assert forall|c: CandidateView| out.contains(c) <==> input.contains(c) by {
            if input.contains(c) {
                let k = choose|k: int| 0 <= k < input.len() && input[k] == c;
                assert(input[k] == c);
            }
        }
    }
    sorted
}

/// Whether no other report shares an identifier with report `j`.
pub open spec fn alone(obs: Seq<PaDeviceObservation>, j: int) -> bool {
    forall|k: int| 0 <= k < obs.len() && k != j ==> !shares_key(obs_keys(obs[j]), obs_keys(#[trigger] obs[k]))
}

pub open spec fn reported_endpoint(obs: Seq<PaDeviceObservation>, e: PaDeviceEndpointView) -> bool {
    exists|j: int| 0 <= j < obs.len() && endpoint_of(#[trigger] obs[j]) == e
}

pub open spec fn founded(obs: Seq<PaDeviceObservation>, c: CandidateView) -> bool {
    exists|j: int| 0 <= j < obs.len() && founded_by(c, #[trigger] obs[j])
}

/// A candidate made of reports: founded by one, reached through their
/// endpoints, each URI once.
pub open spec fn made_of_reports(obs: Seq<PaDeviceObservation>, c: CandidateView) -> bool {
    &&& c.endpoints.len() > 0
    &&& distinct_uris(c.endpoints)
    &&& forall|q: int| 0 <= q < c.endpoints.len() ==> reported_endpoint(obs, #[trigger] c.endpoints[q])
    &&& founded(obs, c)
}

/// A report that is a candidate of its own.
pub open spec fn stands_alone(out: Seq<CandidateView>, o: PaDeviceObservation) -> bool {
    exists|t: int| 0 <= t < out.len() && (#[trigger] out[t]).id == o.id@ && out[t].endpoints == seq![endpoint_of(o)]
}

/// What merging one application's reports guarantees.
pub open spec fn collapsed(obs: Seq<PaDeviceObservation>, out: Seq<CandidateView>) -> bool {
    &&& forall|t: int| 0 <= t < out.len() ==> made_of_reports(obs, #[trigger] out[t])
    &&& forall|j: int| 0 <= j < obs.len() ==> uri_listed(out, #[trigger] obs[j].device_uri@)
    &&& forall|j: int| 0 <= j < obs.len() && alone(obs, j) ==> stands_alone(out, #[trigger] obs[j])
}

#[verifier::spinoff_prover]
proof fn lemma_collapse_done(cv: Seq<CandidateView>, ag: Seq<Seq<Seq<char>>>, m: Seq<Seq<int>>, obs: Seq<PaDeviceObservation>)
    requires
        collapse_inv(cv, ag, m, obs, obs.len() as int),
    ensures
        collapsed(obs, cv),
{
    assert forall|t: int| 0 <= t < cv.len() implies made_of_reports(obs, #[trigger] cv[t]) by {
        assert forall|q: int| 0 <= q < cv[t].endpoints.len() implies reported_endpoint(obs, #[trigger] cv[t].endpoints[q]) by {
            assert(endpoint_from_members(obs, m[t], cv[t].endpoints[q]));
            let x = choose|x: int| 0 <= x < m[t].len() && endpoint_of(obs[#[trigger] m[t][x]]) == cv[t].endpoints[q];
            let j = m[t][x];
            assert(endpoint_of(obs[j]) == cv[t].endpoints[q]);
        }
        assert(founded_by(cv[t], obs[m[t][0]]));
    }
    assert forall|j: int| 0 <= j < obs.len() && alone(obs, j) implies stands_alone(cv, #[trigger] obs[j]) by {
        assert(held(m, j));
        let t = choose|t: int| 0 <= t < m.len() && (#[trigger] m[t]).contains(j);
        let x = choose|x: int| 0 <= x < m[t].len() && m[t][x] == j;
        if m[t].len() > 1 {
            assert(has_partner(obs, m[t], m[t][x]));
            let w = choose|w: int| 0 <= w < m[t].len() && #[trigger] m[t][w] != m[t][x]
                && shares_key(obs_keys(obs[m[t][x]]), obs_keys(obs[m[t][w]]));
            let k = m[t][w];
            assert(0 <= k < obs.len() && k != j);
            assert(!shares_key(obs_keys(obs[j]), obs_keys(obs[k])));
        }
        assert(m[t].len() == 1 && x == 0);
        assert(founded_by(cv[t], obs[j]));
        let e = cv[t].endpoints;
        assert forall|q: int| 0 <= q < e.len() implies #[trigger] e[q] == endpoint_of(obs[j]) by {
            assert(endpoint_from_members(obs, m[t], e[q]));
        }
        if e.len() > 1 {
            assert(e[0] == endpoint_of(obs[j]) && e[1] == endpoint_of(obs[j]));
        }
        assert(e =~= seq![endpoint_of(obs[j])]);
    }
}

/// The same candidate with its endpoints put in order.
pub open spec fn reordered(before: CandidateView, after: CandidateView) -> bool {
    &&& after.id == before.id
    &&& after.printer_application_id == before.printer_application_id
    &&& after.identity == before.identity
    &&& after.display_name == before.display_name
    &&& after.make_and_model == before.make_and_model
    &&& after.device_id == before.device_id
    &&& after.driver_match == before.driver_match
    &&& after.endpoints.len() == before.endpoints.len()
    &&& distinct_uris(after.endpoints)
    &&& endpoints_in_order(after.endpoints)
    &&& forall|e: PaDeviceEndpointView| after.endpoints.contains(e) <==> before.endpoints.contains(e)
}

proof fn lemma_reordered(obs: Seq<PaDeviceObservation>, before: CandidateView, after: CandidateView)
    requires
        made_of_reports(obs, before),
        reordered(before, after),
    ensures
        made_of_reports(obs, after),
        forall|u: Seq<char>| lists_uri(before, u) ==> lists_uri(after, u),
        forall|o: PaDeviceObservation| before.endpoints == seq![endpoint_of(o)] ==> after.endpoints == seq![endpoint_of(o)],
{
    assert forall|q: int| 0 <= q < after.endpoints.len() implies reported_endpoint(obs, #[trigger] after.endpoints[q]) by {
        assert(after.endpoints.contains(after.endpoints[q]));
        let k = choose|k: int| 0 <= k < before.endpoints.len() && before.endpoints[k] == after.endpoints[q];
        assert(reported_endpoint(obs, before.endpoints[k]));
    }
    let j = choose|j: int| 0 <= j < obs.len() && founded_by(before, #[trigger] obs[j]);
    assert(founded_by(after, obs[j]));
    assert forall|u: Seq<char>| lists_uri(before, u) implies lists_uri(after, u) by {
        let q = choose|q: int| 0 <= q < before.endpoints.len() && (#[trigger] before.endpoints[q]).device_uri == u;
        assert(before.endpoints.contains(before.endpoints[q]));
        let k = choose|k: int| 0 <= k < after.endpoints.len() && after.endpoints[k] == before.endpoints[q];
        assert(after.endpoints[k].device_uri == u);
    }
    assert forall|o: PaDeviceObservation| before.endpoints == seq![endpoint_of(o)] implies after.endpoints == seq![endpoint_of(o)] by {
        assert(before.endpoints[0] == endpoint_of(o));
        assert(before.endpoints.contains(after.endpoints[0])) by {
            assert(after.endpoints.contains(after.endpoints[0]));
        }
        assert(after.endpoints =~= seq![endpoint_of(o)]);
    }
}

/// Merges one application's reports of the same device, matching only
/// device UUID, serial number, DNS-SD service or device URI: a report joins
/// the first candidate it shares one of these with, adding its endpoint
/// unless the URI is already listed and filling a missing device ID,
/// serial number or UUID, and otherwise founds a candidate of its own.
/// Endpoints are then put in order of preference, then URI, and candidates
/// in order of identifier.
pub fn collapse_observations(observations: Vec<PaDeviceObservation>) -> (r: Vec<PaConfigurationCandidate>)
    ensures
        collapsed(observations@, candidates_view(r@)),
        ids_in_order(candidates_view(r@)),
        forall|t: int| 0 <= t < r@.len() ==> endpoints_in_order(#[trigger] candidates_view(r@)[t].endpoints),
{
    let ghost obs = observations@;
    let mut cands: Vec<PaConfigurationCandidate> = Vec::new();
    let mut aggs: Vec<Vec<Vec<char>>> = Vec::new();
    let ghost mut members: Seq<Seq<int>> = Seq::empty();
    proof {
        assert(candidates_view(cands@) =~= Seq::<CandidateView>::empty());
        assert(aggs_view(aggs@) =~= Seq::<Seq<Seq<char>>>::empty());
    }
    let mut i: usize = 0;
    while i < observations.len()
        invariant
            i <= observations@.len(),
            obs == observations@,
            collapse_inv(candidates_view(cands@), aggs_view(aggs@), members, obs, i as int),
        decreases observations.len() - i,
    {
        let next = absorb_report(&mut cands, &mut aggs, &observations[i], Ghost(members), Ghost(obs), Ghost(i as int));
        proof {
            members = next@;
        }
        i += 1;
    }
    proof {
        lemma_collapse_done(candidates_view(cands@), aggs_view(aggs@), members, obs);
    }
    let ghost unsorted = candidates_view(cands@);
    let mut t: usize = 0;
    while t < cands.len()
        invariant
            t <= cands@.len(),
            cands@.len() == unsorted.len(),
            collapsed(obs, unsorted),
            forall|u: int| 0 <= u < t ==> reordered(unsorted[u], #[trigger] candidates_view(cands@)[u]),
            forall|u: int| t <= u < unsorted.len() ==> #[trigger] candidates_view(cands@)[u] == unsorted[u],
        decreases cands.len() - t,
    {
        let ghost before = candidates_view(cands@);
        proof {
            assert(before[t as int] == unsorted[t as int]);
            assert(made_of_reports(obs, unsorted[t as int]));
        }
        let mut endpoints: Vec<PaDeviceEndpoint> = Vec::new();
        std::mem::swap(&mut endpoints, &mut cands[t].endpoints);
        let sorted = sort_endpoints(endpoints);
        cands[t].endpoints = sorted;
        proof {
            let now = candidates_view(cands@);
            assert(reordered(unsorted[t as int], now[t as int]));
            assert forall|u: int| 0 <= u < cands@.len() && u != t implies #[trigger] now[u] == before[u] by {}
        }
        t += 1;
    }
    proof {
        let now = candidates_view(cands@);
        assert forall|u: int| 0 <= u < now.len() implies made_of_reports(obs, #[trigger] now[u]) by {
            lemma_reordered(obs, unsorted[u], now[u]);
        }
        assert forall|j: int| 0 <= j < obs.len() implies uri_listed(now, #[trigger] obs[j].device_uri@) by {
            assert(uri_listed(unsorted, obs[j].device_uri@));
            let (u, q) = choose|u: int, q: int| 0 <= u < unsorted.len() && 0 <= q < unsorted[u].endpoints.len()
                && (#[trigger] unsorted[u].endpoints[q]).device_uri == obs[j].device_uri@;
            assert(lists_uri(unsorted[u], obs[j].device_uri@));
            lemma_reordered(obs, unsorted[u], now[u]);
            let k = choose|k: int| 0 <= k < now[u].endpoints.len() && (#[trigger] now[u].endpoints[k]).device_uri == obs[j].device_uri@;
            assert(now[u].endpoints[k].device_uri == obs[j].device_uri@);
        }
        assert forall|j: int| 0 <= j < obs.len() && alone(obs, j) implies stands_alone(now, #[trigger] obs[j]) by {
            assert(stands_alone(unsorted, obs[j]));
            let u = choose|u: int| 0 <= u < unsorted.len() && (#[trigger] unsorted[u]).id == obs[j].id@
                && unsorted[u].endpoints == seq![endpoint_of(obs[j])];
            lemma_reordered(obs, unsorted[u], now[u]);
            assert(now[u].id == obs[j].id@);
        }
    }
    let ghost ordered = candidates_view(cands@);
    let r = sort_candidates(cands);
    proof {
        let out = candidates_view(r@);
        assert forall|u: int| 0 <= u < out.len() implies made_of_reports(obs, #[trigger] out[u])
            && endpoints_in_order(out[u].endpoints) by {
            assert(out.contains(out[u]));
            let k = choose|k: int| 0 <= k < ordered.len() && ordered[k] == out[u];
            assert(reordered(unsorted[k], ordered[k]));
        }
        assert forall|j: int| 0 <= j < obs.len() implies uri_listed(out, #[trigger] obs[j].device_uri@) by {
            let (u, q) = choose|u: int, q: int| 0 <= u < ordered.len() && 0 <= q < ordered[u].endpoints.len()
                && (#[trigger] ordered[u].endpoints[q]).device_uri == obs[j].device_uri@;
            assert(ordered.contains(ordered[u]));
            let k = choose|k: int| 0 <= k < out.len() && out[k] == ordered[u];
            assert(out[k].endpoints[q].device_uri == obs[j].device_uri@);
        }
        assert forall|j: int| 0 <= j < obs.len() && alone(obs, j) implies stands_alone(out, #[trigger] obs[j]) by {
            let u = choose|u: int| 0 <= u < ordered.len() && (#[trigger] ordered[u]).id == obs[j].id@
                && ordered[u].endpoints == seq![endpoint_of(obs[j])];
            assert(ordered.contains(ordered[u]));
            let k = choose|k: int| 0 <= k < out.len() && out[k] == ordered[u];
            assert(out[k].id == obs[j].id@);
        }
    }
    r
}

} // verus!
