//! One round of Add Printer discovery for one Printer Application: when a
//! scan runs at all, and what each device's driver support is taken to be.

use vstd::prelude::*;
use crate::application::PrinterApplication;
use crate::client::PaError;
use crate::drivers::{PaDriverMatch, PaDriverMatchView};
use crate::identity::{CandidateView, PaConfigurationCandidate};
use crate::ipp::opt_view;
use crate::printers::{ConfiguredPrinter, printers_view};
use crate::text::{chars_of, eq_vec, string_of, trim};

verus! {

/// Where one application's part of a round stands.
#[derive(Clone, Copy, Debug, PartialEq, Eq, Structural)]
pub enum PrinterApplicationScanState {
    /// Not asked yet.
    Pending,
    /// Being asked.
    Searching,
    /// Answered.
    Complete,
    /// Cannot be asked for devices.
    Unsupported,
    /// Wants credentials.
    AuthenticationRequired,
    /// Could not be reached.
    Unreachable,
    /// Answered in a way that could not be used.
    Failed,
}

impl PrinterApplicationScanState {
    pub open spec fn finished(self) -> bool {
        !(self is Pending || self is Searching)
    }

    /// Whether this application's part of the round is over.
    pub fn is_finished(&self) -> (r: bool)
        ensures
            r == self.finished(),
    {
        match self {
            PrinterApplicationScanState::Pending | PrinterApplicationScanState::Searching => false,
            _ => true,
        }
    }

    pub open spec fn broke(self) -> bool {
        self is Unreachable || self is Failed
    }

    /// Distinguishes failed scans from valid empty or unsupported answers.
    pub fn scan_broke(&self) -> (r: bool)
        ensures
            r == self.broke(),
    {
        match self {
            PrinterApplicationScanState::Unreachable | PrinterApplicationScanState::Failed => true,
            _ => false,
        }
    }

    pub open spec fn gave_up(self) -> bool {
        self is AuthenticationRequired || self is Unreachable || self is Unsupported || self is Failed
    }

    /// Whether the application could not take part in the round.
    pub fn failed(&self) -> (r: bool)
        ensures
            r == self.gave_up(),
    {
        match self {
            PrinterApplicationScanState::AuthenticationRequired
            | PrinterApplicationScanState::Unreachable
            | PrinterApplicationScanState::Unsupported
            | PrinterApplicationScanState::Failed => true,
            _ => false,
        }
    }
}

/// The scan state a failed device scan leaves.
pub open spec fn scan_state_of(error: PaError) -> PrinterApplicationScanState {
    match error {
        PaError::AuthenticationRequired | PaError::Forbidden { .. } => PrinterApplicationScanState::AuthenticationRequired,
        PaError::Unreachable { .. } => PrinterApplicationScanState::Unreachable,
        PaError::OperationNotSupported => PrinterApplicationScanState::Unsupported,
        PaError::Rejected { .. } | PaError::Malformed { .. } => PrinterApplicationScanState::Failed,
    }
}

/// The scan state a failed device scan leaves.
pub fn scan_state_for(error: &PaError) -> (r: PrinterApplicationScanState)
    ensures
        r == scan_state_of(*error),
        match *error {
            PaError::AuthenticationRequired | PaError::Forbidden { .. } => r is AuthenticationRequired,
            PaError::Unreachable { .. } => r is Unreachable,
            PaError::OperationNotSupported => r is Unsupported,
            PaError::Rejected { .. } | PaError::Malformed { .. } => r is Failed,
        },
{
    match error {
        PaError::AuthenticationRequired => PrinterApplicationScanState::AuthenticationRequired,
        PaError::Forbidden { .. } => PrinterApplicationScanState::AuthenticationRequired,
        PaError::Unreachable { .. } => PrinterApplicationScanState::Unreachable,
        PaError::OperationNotSupported => PrinterApplicationScanState::Unsupported,
        PaError::Rejected { .. } | PaError::Malformed { .. } => PrinterApplicationScanState::Failed,
    }
}

/// Whether an application can be asked for devices at all: it must find
/// devices, and it must run on this machine, since one on another host
/// refuses administration outright. When it cannot, the state its part of
/// the round ends in.
pub fn scan_refusal(application: &PrinterApplication) -> (r: Option<PrinterApplicationScanState>)
    ensures
        !application.capabilities.find_devices ==> r == Some(PrinterApplicationScanState::Unsupported),
        application.capabilities.find_devices && !application.local() ==> r == Some(PrinterApplicationScanState::Unsupported),
        application.capabilities.find_devices && application.local() ==> r is None,
{
    if !application.capabilities.find_devices {
        return Some(PrinterApplicationScanState::Unsupported);
    }
    if !application.is_local() {
        return Some(PrinterApplicationScanState::Unsupported);
    }
    None
}

/// Whether an application belongs in a round: it finds devices, runs on
/// this machine, or has not been probed yet (a DNS-SD re-announcement
/// resets what was known of it for a while).
pub open spec fn worth_asking(application: PrinterApplication) -> bool {
    application.capabilities.find_devices || application.local() || application.state is Discovered
        || application.state is Probing
}

/// Whether an application belongs in a round.
pub fn is_worth_asking(application: &PrinterApplication) -> (r: bool)
    ensures
        r == worth_asking(*application),
{
    application.capabilities.find_devices || application.is_local() || match application.state {
        crate::application::PrinterApplicationState::Discovered => true,
        crate::application::PrinterApplicationState::Probing => true,
        _ => false,
    }
}

/// The name an application is shown under: its make and model, unless
/// that is blank, else its DNS-SD service name.
pub open spec fn application_name_spec(application: PrinterApplication) -> Seq<char> {
    match application.make_and_model {
        Some(name) => if trim(name@).len() > 0 {
            name@
        } else {
            application.service_name@
        },
        None => application.service_name@,
    }
}

/// The name an application is shown under.
pub fn application_name(application: &PrinterApplication) -> (r: String)
    ensures
        r@ == application_name_spec(*application),
{
    match &application.make_and_model {
        Some(name) => {
            if crate::text::trim_vec(&chars_of(name.as_str())).len() > 0 {
                return string_of(chars_of(name.as_str()));
            }
        },
        None => {},
    }
    string_of(chars_of(application.service_name.as_str()))
}

/// The applications a round asks, each with the name it is shown under,
/// in the order given.
pub open spec fn scan_targets_spec(applications: Seq<PrinterApplication>) -> Seq<(Seq<char>, Seq<char>)>
    decreases applications.len(),
{
    if applications.len() == 0 {
        Seq::empty()
    } else {
        let rest = scan_targets_spec(applications.drop_last());
        let a = applications.last();
        if worth_asking(a) {
            rest.push((a.id@, application_name_spec(a)))
        } else {
            rest
        }
    }
}

/// The applications a round asks, with their names.
pub fn scan_targets(applications: &Vec<PrinterApplication>) -> (r: Vec<(String, String)>)
    ensures
        names_view(r@) == scan_targets_spec(applications@),
{
    let mut targets: Vec<(String, String)> = Vec::new();
    let mut i: usize = 0;
    while i < applications.len()
        invariant
            i <= applications.len(),
            names_view(targets@) == scan_targets_spec(applications@.take(i as int)),
        decreases applications.len() - i,
    {
        proof {
            assert(applications@.take(i + 1).drop_last() =~= applications@.take(i as int));
            assert(applications@.take(i + 1).last() == applications@[i as int]);
        }
        let ghost before = names_view(targets@);
        if is_worth_asking(&applications[i]) {
            targets.push((string_of(chars_of(applications[i].id.as_str())), application_name(&applications[i])));
            proof {
                assert(names_view(targets@) =~= before.push((applications@[i as int].id@, application_name_spec(applications@[i as int]))));
            }
        }
        i += 1;
    }
    proof {
        assert(applications@.take(applications@.len() as int) =~= applications@);
    }
    targets
}

/// Whether a scan waiting for its turn still belongs to the current round.
pub fn still_current(current: u64, generation: u64) -> (r: bool)
    ensures
        r == (current == generation),
{
    current == generation
}

// ------------------------------------------------------------ driver support

/// The value a key last received in a list of pairs, as a map built from
/// the pairs in order holds it.
pub open spec fn lookup<T>(pairs: Seq<(Seq<char>, T)>, key: Seq<char>) -> Option<T>
    decreases pairs.len(),
{
    if pairs.len() == 0 {
        None
    } else if pairs.last().0 == key {
        Some(pairs.last().1)
    } else {
        lookup(pairs.drop_last(), key)
    }
}

pub open spec fn names_view(pairs: Seq<(String, String)>) -> Seq<(Seq<char>, Seq<char>)> {
    pairs.map_values(|p: (String, String)| (p.0@, p.1@))
}

pub open spec fn answers_view(pairs: Seq<(String, PaDriverMatch)>) -> Seq<(Seq<char>, PaDriverMatchView)> {
    pairs.map_values(|p: (String, PaDriverMatch)| (p.0@, p.1@))
}

/// The printers an application says it has, as pairs of device URI and
/// printer name; a printer with no device URI recorded says nothing about
/// which device is set up.
pub open spec fn configured_pairs(printers: Seq<crate::printers::ConfiguredPrinterView>) -> Seq<(Seq<char>, Seq<char>)>
    decreases printers.len(),
{
    if printers.len() == 0 {
        Seq::empty()
    } else {
        let before = configured_pairs(printers.drop_last());
        match printers.last().device_uri {
            Some(uri) => before.push((uri, printers.last().name)),
            None => before,
        }
    }
}

/// The printers an application says it has, by device URI.
pub fn configured_devices(printers: &Vec<ConfiguredPrinter>) -> (r: Vec<(String, String)>)
    ensures
        names_view(r@) == configured_pairs(printers_view(printers@)),
{
    let ghost pv = printers_view(printers@);
    let mut pairs: Vec<(String, String)> = Vec::new();
    let mut i: usize = 0;
    while i < printers.len()
        invariant
            i <= printers@.len(),
            pv == printers_view(printers@),
            names_view(pairs@) == configured_pairs(pv.take(i as int)),
        decreases printers.len() - i,
    {
        proof {
            assert(pv.take(i + 1).drop_last() =~= pv.take(i as int));
        }
        match &printers[i].device_uri {
            Some(uri) => {
                let ghost before = pairs@;
                pairs.push((string_of(chars_of(uri.as_str())), string_of(chars_of(printers[i].name.as_str()))));
                proof {
                    assert(names_view(pairs@) =~= names_view(before).push((uri@, printers@[i as int].name@)));
                }
            },
            None => {},
        }
        i += 1;
    }
    proof {
        assert(pv.take(printers@.len() as int) =~= pv);
    }
    pairs
}

fn lookup_name(pairs: &Vec<(String, String)>, key: &str) -> (r: Option<String>)
    ensures
        opt_view(r) == lookup(names_view(pairs@), key@),
{
    let ghost pv = names_view(pairs@);
    let wanted = chars_of(key);
    let mut k: usize = pairs.len();
    proof {
        assert(pv.take(k as int) =~= pv);
    }
    while k > 0
        invariant
            k <= pairs@.len(),
            pv == names_view(pairs@),
            wanted@ == key@,
            lookup(pv, key@) == lookup(pv.take(k as int), key@),
        decreases k,
    {
        proof {
            assert(pv.take(k as int).drop_last() =~= pv.take(k - 1));
        }
        if eq_vec(&chars_of(pairs[k - 1].0.as_str()), &wanted) {
            return Some(string_of(chars_of(pairs[k - 1].1.as_str())));
        }
        k -= 1;
    }
    None
}

fn lookup_answer(pairs: &Vec<(String, PaDriverMatch)>, key: &str) -> (r: Option<PaDriverMatch>)
    ensures
        match r {
            Some(m) => lookup(answers_view(pairs@), key@) == Some(m@),
            None => lookup(answers_view(pairs@), key@) is None,
        },
{
    let ghost pv = answers_view(pairs@);
    let wanted = chars_of(key);
    let mut k: usize = pairs.len();
    proof {
        assert(pv.take(k as int) =~= pv);
    }
    while k > 0
        invariant
            k <= pairs@.len(),
            pv == answers_view(pairs@),
            wanted@ == key@,
            lookup(pv, key@) == lookup(pv.take(k as int), key@),
        decreases k,
    {
        proof {
            assert(pv.take(k as int).drop_last() =~= pv.take(k - 1));
        }
        if eq_vec(&chars_of(pairs[k - 1].0.as_str()), &wanted) {
            return Some(pairs[k - 1].1.duplicate());
        }
        k -= 1;
    }
    None
}

/// The printer an application already has for a candidate: the first of
/// its endpoints, in order, whose URI the application's printers name.
pub open spec fn already_configured(c: CandidateView, configured: Seq<(Seq<char>, Seq<char>)>) -> Option<Seq<char>>
    decreases c.endpoints.len(),
{
    if c.endpoints.len() == 0 {
        None
    } else {
        let before = already_configured(CandidateView { endpoints: c.endpoints.drop_last(), ..c }, configured);
        if before is Some {
            before
        } else {
            lookup(configured, c.endpoints.last().device_uri)
        }
    }
}

/// What to do about one candidate's driver support.
pub enum DriverStep {
    /// Known without asking the application.
    Settled(PaDriverMatch),
    /// Ask the application about this device ID.
    Ask(String),
}

/// Settles a candidate's driver support where no question is needed: a
/// device the application already has a printer for is already
/// configured, one without a device ID cannot be matched, and a device ID
/// asked about earlier in the scan gets the same answer. Otherwise the
/// application has to be asked about the candidate's device ID.
pub fn settle_without_asking(
    candidate: &PaConfigurationCandidate,
    configured: &Vec<(String, String)>,
    checked: &Vec<(String, PaDriverMatch)>,
) -> (r: DriverStep)
    ensures
        match already_configured(candidate@, names_view(configured@)) {
            Some(name) => r matches DriverStep::Settled(m) && m@ == PaDriverMatchView::AlreadyConfigured(name),
            None => match candidate@.device_id {
                None => r matches DriverStep::Settled(m) && m@ == PaDriverMatchView::Unsupported,
                Some(id) => match lookup(answers_view(checked@), id) {
                    Some(m0) => r matches DriverStep::Settled(m) && m@ == m0,
                    None => r matches DriverStep::Ask(asked) && asked@ == id,
                },
            },
        },
{
    let ghost cv = candidate@;
    let ghost conf = names_view(configured@);
    let mut q: usize = 0;
    proof {
        let c0 = CandidateView { endpoints: cv.endpoints.take(0), ..cv };
        assert(c0.endpoints.len() == 0);
    }
    while q < candidate.endpoints.len()
        invariant
            q <= candidate.endpoints@.len(),
            cv == candidate@,
            conf == names_view(configured@),
            already_configured(CandidateView { endpoints: cv.endpoints.take(q as int), ..cv }, conf) is None,
        decreases candidate.endpoints.len() - q,
    {
        proof {
            let next = CandidateView { endpoints: cv.endpoints.take(q + 1), ..cv };
            assert(next.endpoints.drop_last() =~= cv.endpoints.take(q as int));
            assert(CandidateView { endpoints: next.endpoints.drop_last(), ..next } == CandidateView {
                endpoints: cv.endpoints.take(q as int),
                ..cv
            });
            assert(next.endpoints.last() == cv.endpoints[q as int]);
            assert(cv.endpoints[q as int] == candidate.endpoints@[q as int]@);
        }
        match lookup_name(configured, candidate.endpoints[q].device_uri.as_str()) {
            Some(name) => {
                proof {
                    lemma_already_configured_prefix(cv, conf, q as int + 1);
                }
                return DriverStep::Settled(PaDriverMatch::AlreadyConfigured { printer_name: name });
            },
            None => {},
        }
        q += 1;
    }
    proof {
        assert(cv.endpoints.take(candidate.endpoints@.len() as int) =~= cv.endpoints);
        assert(CandidateView { endpoints: cv.endpoints, ..cv } == cv);
    }
    match &candidate.device_id {
        None => DriverStep::Settled(PaDriverMatch::Unsupported),
        Some(id) => match lookup_answer(checked, id.as_str()) {
            Some(m) => DriverStep::Settled(m),
            None => DriverStep::Ask(string_of(chars_of(id.as_str()))),
        },
    }
}

/// Once a prefix of the endpoints names a configured printer, the whole
/// list does, with the same printer.
proof fn lemma_already_configured_prefix(c: CandidateView, configured: Seq<(Seq<char>, Seq<char>)>, k: int)
    requires
        0 <= k <= c.endpoints.len(),
        already_configured(CandidateView { endpoints: c.endpoints.take(k), ..c }, configured) is Some,
    ensures
        already_configured(c, configured) == already_configured(CandidateView { endpoints: c.endpoints.take(k), ..c }, configured),
    decreases c.endpoints.len() - k,
{
    if k < c.endpoints.len() {
        let longer = CandidateView { endpoints: c.endpoints.take(k + 1), ..c };
        assert(longer.endpoints.drop_last() =~= c.endpoints.take(k));
        assert(CandidateView { endpoints: longer.endpoints.drop_last(), ..longer } == CandidateView {
            endpoints: c.endpoints.take(k),
            ..c
        });
        lemma_already_configured_prefix(c, configured, k + 1);
    } else {
        assert(c.endpoints.take(k) =~= c.endpoints);
        assert(CandidateView { endpoints: c.endpoints, ..c } == c);
    }
}

/// What an answer about a device's drivers settles: a real answer stands
/// and is worth remembering; when the application gave none, what it
/// answered about the same device before stands in for it, if anything.
pub fn settle_answer(
    asked: PaDriverMatch,
    remembered: &Vec<(String, PaDriverMatch)>,
    device_id: &str,
) -> (r: (PaDriverMatch, bool))
    ensures
        asked.answers() ==> r.0@ == asked@ && r.1,
        !asked.answers() ==> !r.1 && match lookup(answers_view(remembered@), device_id@) {
            Some(m) => r.0@ == m,
            None => r.0@ == asked@,
        },
{
    if asked.is_an_answer() {
        return (asked, true);
    }
    match lookup_answer(remembered, device_id) {
        Some(m) => (m, false),
        None => (asked, false),
    }
}

/// What a device scan leaves in the round: a scan that answered leaves its
/// candidates and its count of unusable collections, complete; a scan that
/// failed leaves nothing, in the state its error means; a scan that
/// stopped before it ended (`None`) leaves nothing, failed.
pub fn scan_snapshot(outcome: Option<Result<(Vec<PaConfigurationCandidate>, usize), PaError>>) -> (r: (
    PrinterApplicationScanState,
    Vec<PaConfigurationCandidate>,
    usize,
))
    ensures
        match outcome {
            Some(Ok((candidates, quarantined))) => r.0 is Complete && r.1@ == candidates@ && r.2 == quarantined,
            Some(Err(e)) => r.0 == scan_state_of(e) && r.1@.len() == 0 && r.2 == 0,
            None => r.0 is Failed && r.1@.len() == 0 && r.2 == 0,
        },
{
    match outcome {
        Some(Ok((candidates, quarantined))) => (PrinterApplicationScanState::Complete, candidates, quarantined),
        Some(Err(error)) => (scan_state_for(&error), Vec::new(), 0),
        None => (PrinterApplicationScanState::Failed, Vec::new(), 0),
    }
}

fn copy_names(pairs: &Vec<(String, String)>) -> (r: Vec<(String, String)>)
    ensures
        names_view(r@) == names_view(pairs@),
{
    let mut out: Vec<(String, String)> = Vec::new();
    let mut i: usize = 0;
    while i < pairs.len()
        invariant
            i <= pairs@.len(),
            names_view(out@) == names_view(pairs@).take(i as int),
        decreases pairs.len() - i,
    {
        let ghost prev = out@;
        out.push((string_of(chars_of(pairs[i].0.as_str())), string_of(chars_of(pairs[i].1.as_str()))));
        proof {
            assert(names_view(out@) =~= names_view(prev).push((pairs@[i as int].0@, pairs@[i as int].1@)));
            assert(names_view(pairs@).take(i + 1) =~= names_view(pairs@).take(i as int).push(
                (pairs@[i as int].0@, pairs@[i as int].1@),
            ));
        }
        i += 1;
    }
    proof {
        assert(names_view(pairs@).take(pairs@.len() as int) =~= names_view(pairs@));
    }
    out
}

/// The devices taken as set up during a scan: those the application
/// listed when it answered, else those remembered from an earlier scan.
pub fn configured_to_use(answered: &Option<Vec<(String, String)>>, remembered: &Vec<(String, String)>) -> (r: Vec<
    (String, String),
>)
    ensures
        names_view(r@) == match answered {
            Some(a) => names_view(a@),
            None => names_view(remembered@),
        },
{
    match answered {
        Some(a) => copy_names(a),
        None => copy_names(remembered),
    }
}

/// What one scan has learnt of drivers so far: the match settled for each
/// device ID asked, so that no ID is asked twice, and the application's own
/// answers, to be remembered.
pub struct DriverScan {
    pub checked: Vec<(String, PaDriverMatch)>,
    pub driver_answers: Vec<(String, PaDriverMatch)>,
}

/// Takes what the application said about one device ID: the match it
/// settles on is recorded for the ID, and kept to be remembered when it is
/// the application's own answer. Returns the match.
pub fn record_driver_answer(
    scan: &mut DriverScan,
    device_id: &str,
    asked: PaDriverMatch,
    remembered: &Vec<(String, PaDriverMatch)>,
) -> (r: PaDriverMatch)
    ensures
        asked.answers() ==> r@ == asked@,
        !asked.answers() ==> r@ == match lookup(answers_view(remembered@), device_id@) {
            Some(m) => m,
            None => asked@,
        },
        answers_view(final(scan).checked@) == answers_view(old(scan).checked@).push((device_id@, r@)),
        answers_view(final(scan).driver_answers@) == if asked.answers() {
            answers_view(old(scan).driver_answers@).push((device_id@, r@))
        } else {
            answers_view(old(scan).driver_answers@)
        },
{
    let ghost is_answer = asked.answers();
    let (matched, answered) = settle_answer(asked, remembered, device_id);
    if answered {
        let ghost before = scan.driver_answers@;
        scan.driver_answers.push((string_of(chars_of(device_id)), matched.duplicate()));
        proof {
            assert(answers_view(scan.driver_answers@) =~= answers_view(before).push((device_id@, matched@)));
        }
    }
    let ghost before = scan.checked@;
    scan.checked.push((string_of(chars_of(device_id)), matched.duplicate()));
    proof {
        assert(answers_view(scan.checked@) =~= answers_view(before).push((device_id@, matched@)));
    }
    matched
}

} // verus!
