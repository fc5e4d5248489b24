//! Add Printer discovery, organized into rounds: each round has its own
//! generation, every Printer Application reports into it independently,
//! and nothing from an older round can be written or selected.
//!
//! Candidates from every application are grouped into one row per
//! physical printer; while a new round runs, the rows of the previous one
//! are shown as cached but can never be selected.

use vstd::prelude::*;
use crate::application::ResolveError;
use crate::drivers::{PaDriverMatch, PaDriverMatchView};
use crate::identity::{
    candidates_view, grouping, group_candidates, keep_established_identifiers, kept_id, rows_view,
    CandidateView, PaConfigurationCandidate, PhysicalPrinter,
};
use crate::scan::PrinterApplicationScanState;
use crate::text::{chars_of, eq_vec, lex_lt, lex_lt_exec, push_str, string_of};

verus! {

/// Where a round of discovery stands.
#[derive(Clone, Copy, Debug, PartialEq, Eq, Structural)]
pub enum AddPrinterDiscoveryState {
    /// No round has run.
    Idle,
    /// Some application has not answered yet.
    Searching,
    /// Every application answered.
    Complete,
    /// Every application answered, and some could not take part.
    CompleteWithErrors,
}

/// What the person is told about one candidate.
#[derive(Clone, Copy, Debug, PartialEq, Eq, Structural)]
pub enum PaCandidateState {
    Ready,
    AlreadyConfigured,
    Unsupported,
    AuthenticationRequired,
    Unavailable,
    DriverUnknown,
}

/// What the person is told about a candidate with this driver support.
pub open spec fn candidate_state_for(driver_match: PaDriverMatchView) -> PaCandidateState {
    match driver_match {
        PaDriverMatchView::Supported(_) => PaCandidateState::Ready,
        PaDriverMatchView::AlreadyConfigured(_) => PaCandidateState::AlreadyConfigured,
        PaDriverMatchView::Unsupported => PaCandidateState::Unsupported,
        PaDriverMatchView::AuthenticationRequired => PaCandidateState::AuthenticationRequired,
        PaDriverMatchView::Unavailable => PaCandidateState::Unavailable,
        PaDriverMatchView::Unchecked | PaDriverMatchView::MalformedResponse => PaCandidateState::DriverUnknown,
    }
}

/// What the person is told follows from what the application said about
/// its drivers: a candidate reads as ready exactly when drivers were
/// offered, as unsupported exactly when the application answered that it
/// cannot drive the device, as unavailable exactly when the application
/// could not be reached for its drivers, as needing credentials exactly
/// when it asked for them, and as set up exactly when it already was. Only
/// the application's own answers (drivers, or none) read as ready or
/// unsupported.
pub proof fn candidate_state_follows_driver_match(driver_match: PaDriverMatchView)
    ensures
        candidate_state_for(driver_match) == PaCandidateState::Ready <==> driver_match is Supported,
        candidate_state_for(driver_match) == PaCandidateState::Unsupported <==> driver_match is Unsupported,
        candidate_state_for(driver_match) == PaCandidateState::Unavailable <==> driver_match is Unavailable,
        candidate_state_for(driver_match) == PaCandidateState::AuthenticationRequired <==> driver_match is AuthenticationRequired,
        candidate_state_for(driver_match) == PaCandidateState::AlreadyConfigured <==> driver_match is AlreadyConfigured,
        candidate_state_for(driver_match) == PaCandidateState::DriverUnknown <==> (driver_match is Unchecked
            || driver_match is MalformedResponse),
        (candidate_state_for(driver_match) == PaCandidateState::Ready || candidate_state_for(driver_match)
            == PaCandidateState::Unsupported) <==> (driver_match is Supported || driver_match is Unsupported),
{
}

/// Maps a driver match to what the person is told about a candidate.
pub fn candidate_state(driver_match: &PaDriverMatch) -> (r: PaCandidateState)
    ensures
        r == candidate_state_for(driver_match@),
{
    match driver_match {
        PaDriverMatch::Supported { .. } => PaCandidateState::Ready,
        PaDriverMatch::AlreadyConfigured { .. } => PaCandidateState::AlreadyConfigured,
        PaDriverMatch::Unsupported => PaCandidateState::Unsupported,
        PaDriverMatch::AuthenticationRequired => PaCandidateState::AuthenticationRequired,
        PaDriverMatch::Unavailable => PaCandidateState::Unavailable,
        PaDriverMatch::Unchecked | PaDriverMatch::MalformedResponse => PaCandidateState::DriverUnknown,
    }
}

/// What one Printer Application reported in one round.
#[derive(Clone, Debug)]
pub struct PrinterApplicationDeviceSnapshot {
    pub printer_application_id: String,
    pub printer_application_name: String,
    pub state: PrinterApplicationScanState,
    pub candidates: Vec<PaConfigurationCandidate>,
    /// How many device collections were unusable.
    pub quarantined: usize,
}

/// One application's offer, as a client sees it.
#[derive(Clone, Debug)]
pub struct PrinterApplicationCandidateSummary {
    pub id: String,
    pub printer_application_id: String,
    pub printer_application_name: String,
    pub state: PaCandidateState,
}

/// One row, as a client sees it.
#[derive(Clone, Debug)]
pub struct DiscoveredPhysicalPrinter {
    pub id: String,
    pub display_name: String,
    pub make_and_model: Option<String>,
    pub candidates: Vec<PrinterApplicationCandidateSummary>,
}

/// Where one application's part of the round stands, as a client sees it.
#[derive(Clone, Debug)]
pub struct PrinterApplicationScanStatus {
    pub printer_application_id: String,
    pub printer_application_name: String,
    pub state: PrinterApplicationScanState,
}

/// The state of Add Printer discovery, as a client sees it.
#[derive(Clone, Debug)]
pub struct AddPrinterDiscoveryReply {
    pub generation: u64,
    pub state: AddPrinterDiscoveryState,
    pub physical_printers: Vec<DiscoveredPhysicalPrinter>,
    pub completed_printer_application_scans: u32,
    pub total_printer_application_scans: u32,
    pub any_printer_application_failed: bool,
    pub printer_application_scans: Vec<PrinterApplicationScanStatus>,
    /// The rows are the previous round's, shown until fresh ones arrive.
    pub cached: bool,
}

/// The name of the application with this identifier, or the identifier
/// when no application of the round has it.
pub open spec fn application_name(snapshots: Seq<PrinterApplicationDeviceSnapshot>, id: Seq<char>) -> Seq<char>
    decreases snapshots.len(),
{
    if snapshots.len() == 0 {
        id
    } else if snapshots.last().printer_application_id@ == id {
        snapshots.last().printer_application_name@
    } else {
        application_name(snapshots.drop_last(), id)
    }
}

/// How many applications have finished their part of the round.
pub open spec fn finished_count(snapshots: Seq<PrinterApplicationDeviceSnapshot>) -> nat
    decreases snapshots.len(),
{
    if snapshots.len() == 0 {
        0
    } else {
        finished_count(snapshots.drop_last()) + if snapshots.last().state.finished() {
            1nat
        } else {
            0nat
        }
    }
}

/// The summary a client is shown of a candidate.
pub open spec fn summarizes(
    summary: PrinterApplicationCandidateSummary,
    candidate: CandidateView,
    snapshots: Seq<PrinterApplicationDeviceSnapshot>,
) -> bool {
    &&& summary.id@ == candidate.id
    &&& summary.printer_application_id@ == candidate.printer_application_id
    &&& summary.printer_application_name@ == application_name(snapshots, candidate.printer_application_id)
    &&& summary.state == candidate_state_for(candidate.driver_match)
}

/// The row a client is shown.
pub open spec fn shows_row(
    shown: DiscoveredPhysicalPrinter,
    row: crate::identity::PhysicalPrinterView,
    snapshots: Seq<PrinterApplicationDeviceSnapshot>,
) -> bool {
    &&& shown.id@ == row.id
    &&& shown.display_name@ == row.display_name
    &&& crate::ipp::opt_view(shown.make_and_model) == row.make_and_model
    &&& shown.candidates@.len() == row.candidates.len()
    &&& forall|q: int| 0 <= q < row.candidates.len() ==> summarizes(#[trigger] shown.candidates@[q], row.candidates[q], snapshots)
}

/// The first row, from `from` on, with this identifier.
pub open spec fn row_position(rows: Seq<crate::identity::PhysicalPrinterView>, id: Seq<char>, from: int) -> Option<int>
    decreases rows.len() - from,
    when 0 <= from
{
    if from >= rows.len() {
        None
    } else if rows[from].id == id {
        Some(from)
    } else {
        row_position(rows, id, from + 1)
    }
}

/// The first candidate, from `from` on, with this identifier.
pub open spec fn candidate_position(candidates: Seq<CandidateView>, id: Seq<char>, from: int) -> Option<int>
    decreases candidates.len() - from,
    when 0 <= from
{
    if from >= candidates.len() {
        None
    } else if candidates[from].id == id {
        Some(from)
    } else {
        candidate_position(candidates, id, from + 1)
    }
}

/// The round state the applications' states add up to.
pub open spec fn round_state(snapshots: Seq<PrinterApplicationDeviceSnapshot>) -> AddPrinterDiscoveryState {
    if exists|i: int| 0 <= i < snapshots.len() && !(#[trigger] snapshots[i]).state.finished() {
        AddPrinterDiscoveryState::Searching
    } else if exists|i: int| 0 <= i < snapshots.len() && (#[trigger] snapshots[i]).state.gave_up() {
        AddPrinterDiscoveryState::CompleteWithErrors
    } else {
        AddPrinterDiscoveryState::Complete
    }
}

pub open spec fn ids_of(snapshots: Seq<PrinterApplicationDeviceSnapshot>) -> Seq<Seq<char>> {
    snapshots.map_values(|s: PrinterApplicationDeviceSnapshot| s.printer_application_id@)
}

/// Every candidate the applications of a round report, application by
/// application.
pub open spec fn reported(snapshots: Seq<PrinterApplicationDeviceSnapshot>) -> Seq<CandidateView>
    decreases snapshots.len(),
{
    if snapshots.len() == 0 {
        Seq::empty()
    } else {
        reported(snapshots.drop_last()) + candidates_view(snapshots.last().candidates@)
    }
}

/// Copies every candidate the applications report.
fn all_candidates(snapshots: &Vec<PrinterApplicationDeviceSnapshot>) -> (r: Vec<PaConfigurationCandidate>)
    ensures
        candidates_view(r@) == reported(snapshots@),
{
    let mut out: Vec<PaConfigurationCandidate> = Vec::new();
    let mut i: usize = 0;
    while i < snapshots.len()
        invariant
            i <= snapshots@.len(),
            candidates_view(out@) == reported(snapshots@.take(i as int)),
        decreases snapshots.len() - i,
    {
        let ghost base = candidates_view(out@);
        let mut q: usize = 0;
        while q < snapshots[i].candidates.len()
            invariant
                i < snapshots@.len(),
                q <= snapshots@[i as int].candidates@.len(),
                candidates_view(out@) == base + candidates_view(snapshots@[i as int].candidates@).take(q as int),
            decreases snapshots[i as int].candidates@.len() - q,
        {
            let ghost prev = out@;
            let d = snapshots[i].candidates[q].duplicate();
            let ghost dv = d@;
            out.push(d);
            proof {
                assert(candidates_view(out@) =~= candidates_view(prev).push(dv));
                assert(candidates_view(snapshots@[i as int].candidates@).take(q + 1) =~= candidates_view(
                    snapshots@[i as int].candidates@,
                ).take(q as int).push(dv));
                assert(candidates_view(out@) =~= base + candidates_view(snapshots@[i as int].candidates@).take(q + 1));
            }
            q += 1;
        }
        proof {
            assert(snapshots@.take(i + 1).drop_last() =~= snapshots@.take(i as int));
            assert(candidates_view(snapshots@[i as int].candidates@).take(q as int) =~= candidates_view(snapshots@[i as int].candidates@));
        }
        i += 1;
    }
    proof {
        assert(snapshots@.take(snapshots@.len() as int) =~= snapshots@);
    }
    out
}

/// The applications of a round, each once, in identifier order.
pub open spec fn well_ordered(snapshots: Seq<PrinterApplicationDeviceSnapshot>) -> bool {
    forall|i: int, j: int| 0 <= i < j < snapshots.len() ==> lex_lt(
        #[trigger] snapshots[i].printer_application_id@,
        #[trigger] snapshots[j].printer_application_id@,
    )
}

/// The state of Add Printer discovery.
#[derive(Debug)]
pub struct AddPrinterDiscovery {
    generation: u64,
    state: AddPrinterDiscoveryState,
    snapshots: Vec<PrinterApplicationDeviceSnapshot>,
    physical_printers: Vec<PhysicalPrinter>,
    /// Rows from the previous round, shown as context while a new one runs.
    previous_physical_printers: Vec<PhysicalPrinter>,
}

impl AddPrinterDiscovery {
    pub closed spec fn generation_of(&self) -> u64 {
        self.generation
    }

    pub closed spec fn state_of(&self) -> AddPrinterDiscoveryState {
        self.state
    }

    pub closed spec fn snapshots_of(&self) -> Seq<PrinterApplicationDeviceSnapshot> {
        self.snapshots@
    }

    /// The rows of the current round.
    pub closed spec fn rows_of(&self) -> Seq<crate::identity::PhysicalPrinterView> {
        rows_view(self.physical_printers@)
    }

    /// The rows of the previous round.
    pub closed spec fn previous_rows_of(&self) -> Seq<crate::identity::PhysicalPrinterView> {
        rows_view(self.previous_physical_printers@)
    }

    /// The invariant every round keeps: applications listed once each in
    /// order; idle only before the first round; and rows, once built in a
    /// round, grouping exactly what the applications reported.
    pub closed spec fn wf(&self) -> bool {
        &&& well_ordered(self.snapshots@)
        &&& (self.state is Idle ==> self.generation == 0 && self.snapshots@.len() == 0
            && self.physical_printers@.len() == 0)
        &&& (!(self.state is Idle) ==> self.generation > 0)
        &&& (self.physical_printers@.len() > 0 ==> grouping(reported(self.snapshots@), self.rows_of()))
    }

    /// No round yet.
    pub fn new() -> (r: Self)
        ensures
            r.wf(),
            r.generation_of() == 0,
            r.state_of() is Idle,
            r.snapshots_of().len() == 0,
            r.rows_of().len() == 0,
            r.previous_rows_of().len() == 0,
    {
        AddPrinterDiscovery {
            generation: 0,
            state: AddPrinterDiscoveryState::Idle,
            snapshots: Vec::new(),
            physical_printers: Vec::new(),
            previous_physical_printers: Vec::new(),
        }
    }

    /// Returns the current generation.
    pub fn generation(&self) -> (r: u64)
        ensures
            r == self.generation_of(),
    {
        self.generation
    }

    /// Where the round stands.
    pub fn state(&self) -> (r: AddPrinterDiscoveryState)
        ensures
            r == self.state_of(),
    {
        self.state
    }

    /// The applications of the round, in identifier order.
    pub fn snapshots(&self) -> (r: &Vec<PrinterApplicationDeviceSnapshot>)
        ensures
            r@ == self.snapshots_of(),
    {
        &self.snapshots
    }

    fn position_of(&self, application_id: &str) -> (r: Option<usize>)
        ensures
            match r {
                Some(i) => i < self.snapshots@.len() && self.snapshots@[i as int].printer_application_id@ == application_id@,
                None => forall|i: int| 0 <= i < self.snapshots@.len() ==> (#[trigger] self.snapshots@[i]).printer_application_id@ != application_id@,
            },
    {
        position_in(&self.snapshots, application_id)
    }

    /// Rebuilds the rows from every application's candidates, keeping
    /// established row identifiers, and the round's state from the
    /// applications' states.
    fn recompute(&mut self)
        requires
            well_ordered(old(self).snapshots@),
        ensures
            final(self).snapshots@ == old(self).snapshots@,
            final(self).generation == old(self).generation,
            final(self).previous_physical_printers@ == old(self).previous_physical_printers@,
            final(self).state == round_state(final(self).snapshots@),
            grouping(reported(final(self).snapshots@), final(self).rows_of()),
            forall|t: int| 0 <= t < final(self).rows_of().len() ==> {
                let row = #[trigger] final(self).rows_of()[t];
                row.id == crate::identity::row_id_for(row.candidates)
                    || crate::identity::id_taken(old(self).rows_of(), row.id)
            },
    {
        let mut rows = group_candidates(all_candidates(&self.snapshots));
        let ghost fresh = rows_view(rows@);
        keep_established_identifiers(&self.physical_printers, &mut rows);
        proof {
            let kept = rows_view(rows@);
            let old_rows = rows_view(self.physical_printers@);
            assert forall|t: int| 0 <= t < kept.len() implies {
                let row = #[trigger] kept[t];
                row.id == crate::identity::row_id_for(row.candidates)
                    || crate::identity::id_taken(old_rows, row.id)
            } by {
                assert(fresh[t].candidates == kept[t].candidates);
                match crate::identity::first_established(old_rows, fresh[t], 0) {
                    Some(k) => {
                        crate::identity::lemma_first_established_bounds(old_rows, fresh[t], 0);
                        if !crate::identity::id_taken(fresh, old_rows[k].id) {
                            assert(old_rows[k].id == kept[t].id);
                        }
                    },
                    None => {},
                }
            }
            assert(kept.len() == fresh.len());
            assert forall|t: int| 0 <= t < kept.len() implies crate::identity::row_made(#[trigger] kept[t]) by {
                assert(crate::identity::row_made(fresh[t]));
            }
            assert forall|a: int, b: int| 0 <= a < b < kept.len() implies !lex_lt(#[trigger] kept[b].display_name, #[trigger] kept[a].display_name) by {
                assert(!lex_lt(fresh[b].display_name, fresh[a].display_name));
            }
            assert forall|p: int, q: int| 0 <= p < kept.len() && 0 <= q < kept[p].candidates.len()
                implies reported(self.snapshots@).contains(#[trigger] kept[p].candidates[q]) by {
                assert(fresh[p].candidates[q] == kept[p].candidates[q]);
            }
            assert forall|a: CandidateView, b: CandidateView| crate::identity::in_one_row(fresh, a, b)
                implies crate::identity::in_one_row(kept, a, b) by {
                let p = choose|p: int| 0 <= p < fresh.len() && (#[trigger] fresh[p].candidates).contains(a)
                    && fresh[p].candidates.contains(b);
                assert(kept[p].candidates == fresh[p].candidates);
            }
        }
        self.physical_printers = rows;
        let mut finished = true;
        let mut any_failed = false;
        let mut i: usize = 0;
        while i < self.snapshots.len()
            invariant
                i <= self.snapshots.len(),
                finished <==> forall|k: int| 0 <= k < i ==> (#[trigger] self.snapshots@[k]).state.finished(),
                any_failed <==> exists|k: int| 0 <= k < i && (#[trigger] self.snapshots@[k]).state.gave_up(),
            decreases self.snapshots.len() - i,
        {
            if !self.snapshots[i].state.is_finished() {
                finished = false;
            }
            if self.snapshots[i].state.failed() {
                any_failed = true;
            }
            i += 1;
        }
        self.state = if !finished {
            AddPrinterDiscoveryState::Searching
        } else if any_failed {
            AddPrinterDiscoveryState::CompleteWithErrors
        } else {
            AddPrinterDiscoveryState::Complete
        };
    }

    /// Starts a round: a new generation, every application pending (each
    /// once, in identifier order), keeping the candidates it last reported
    /// as cached until it answers; the rows built so far become the
    /// previous round's, and a round without applications is complete at
    /// once.
    pub fn start(&mut self, applications: Vec<(String, String)>) -> (r: u64)
        requires
            old(self).wf(),
            old(self).generation_of() < u64::MAX,
        ensures
            final(self).wf(),
            r == final(self).generation_of(),
            final(self).generation_of() == old(self).generation_of() + 1,
            applications@.len() == 0 <==> final(self).state_of() is Complete && final(self).snapshots_of().len() == 0,
            applications@.len() > 0 ==> final(self).state_of() is Searching,
            final(self).rows_of().len() == 0,
            final(self).previous_rows_of() == old(self).rows_of(),
            forall|i: int| 0 <= i < final(self).snapshots_of().len() ==> {
                let s = #[trigger] final(self).snapshots_of()[i];
                &&& s.state is Pending
                &&& s.quarantined == 0
                &&& candidates_view(s.candidates@) == carried(old(self).snapshots_of(), s.printer_application_id@)
                &&& exists|k: int| 0 <= k < applications@.len() && (#[trigger] applications@[k]).0@ == s.printer_application_id@
                    && applications@[k].1@ == s.printer_application_name@
            },
            forall|id: Seq<char>| ids_of(final(self).snapshots_of()).contains(id) <==> exists|i: int|
                0 <= i < applications@.len() && (#[trigger] applications@[i]).0@ == id,
    {
        let mut carried_over: Vec<PrinterApplicationDeviceSnapshot> = Vec::new();
        std::mem::swap(&mut carried_over, &mut self.snapshots);
        let ghost before = carried_over@;
        let mut fresh: Vec<PrinterApplicationDeviceSnapshot> = Vec::new();
        let mut i: usize = 0;
        while i < applications.len()
            invariant
                i <= applications.len(),
                before == carried_over@,
                well_ordered(before),
                well_ordered(fresh@),
                forall|k: int| 0 <= k < fresh@.len() ==> {
                    let s = #[trigger] fresh@[k];
                    &&& s.state is Pending
                    &&& s.quarantined == 0
                    &&& candidates_view(s.candidates@) == carried(before, s.printer_application_id@)
                    &&& exists|a: int| 0 <= a < i && (#[trigger] applications@[a]).0@ == s.printer_application_id@
                        && applications@[a].1@ == s.printer_application_name@
                },
                forall|id: Seq<char>| ids_of(fresh@).contains(id) <==> exists|k: int|
                    0 <= k < i && (#[trigger] applications@[k]).0@ == id,
            decreases applications.len() - i,
        {
            let id = chars_of(applications[i].0.as_str());
            let candidates = match position_in(&carried_over, applications[i].0.as_str()) {
                Some(c) => {
                    proof {
                        lemma_carried(before, c as int);
                    }
                    let copied = crate::identity::duplicate_candidates(&carried_over[c].candidates);
                    proof {
                        assert(candidates_view(copied@) == carried(before, id@));
                    }
                    copied
                },
                None => {
                    proof {
                        if ids_of(before).contains(id@) {
                            let k = choose|k: int| 0 <= k < ids_of(before).len() && ids_of(before)[k] == id@;
                            assert(before[k].printer_application_id@ == id@);
                        }
                        lemma_not_carried(before, id@);
                    }
                    let none: Vec<PaConfigurationCandidate> = Vec::new();
                    proof {
                        assert(candidates_view(none@) =~= carried(before, id@));
                    }
                    none
                },
            };
            assert(candidates_view(candidates@) == carried(before, id@));
            let snapshot = PrinterApplicationDeviceSnapshot {
                printer_application_id: string_of(chars_of(applications[i].0.as_str())),
                printer_application_name: string_of(chars_of(applications[i].1.as_str())),
                state: PrinterApplicationScanState::Pending,
                candidates,
                quarantined: 0,
            };
            let ghost made = snapshot;
            let ghost fresh_before = fresh@;
            insert_ordered(&mut fresh, snapshot);
            proof {
                assert(candidates_view(made.candidates@) == carried(before, made.printer_application_id@));
                assert forall|k: int| 0 <= k < fresh@.len() implies {
                    let s = #[trigger] fresh@[k];
                    &&& s.state is Pending
                    &&& s.quarantined == 0
                    &&& candidates_view(s.candidates@) == carried(before, s.printer_application_id@)
                    &&& exists|a: int| 0 <= a < i + 1 && (#[trigger] applications@[a]).0@ == s.printer_application_id@
                        && applications@[a].1@ == s.printer_application_name@
                } by {
                    if fresh@[k] == made {
                        assert(applications@[i as int].0@ == made.printer_application_id@);
                    } else {
                        let t = choose|t: int| 0 <= t < fresh_before.len() && fresh_before[t] == fresh@[k];
                        assert(fresh_before[t] == fresh@[k]);
                    }
                }
                assert forall|x: Seq<char>| ids_of(fresh@).contains(x) <==> exists|k: int|
                    0 <= k < i + 1 && (#[trigger] applications@[k]).0@ == x by {
                    if x == id@ {
                        assert(applications@[i as int].0@ == x);
                    }
                    if exists|k: int| 0 <= k < i + 1 && (#[trigger] applications@[k]).0@ == x {
                        let k = choose|k: int| 0 <= k < i + 1 && (#[trigger] applications@[k]).0@ == x;
                        if k < i {
                        }
                    }
                }
            }
            i += 1;
        }
        self.snapshots = fresh;
        self.generation = self.generation + 1;
        let mut previous: Vec<PhysicalPrinter> = Vec::new();
        std::mem::swap(&mut previous, &mut self.physical_printers);
        self.previous_physical_printers = previous;
        if self.snapshots.len() == 0 {
            self.state = AddPrinterDiscoveryState::Complete;
            if applications.len() > 0 {
                assert(ids_of(self.snapshots@).contains(applications@[0].0@));
            }
        } else {
            self.state = AddPrinterDiscoveryState::Searching;
            if applications.len() == 0 {
                assert(ids_of(self.snapshots@)[0] == self.snapshots@[0].printer_application_id@);
                assert(ids_of(self.snapshots@).contains(self.snapshots@[0].printer_application_id@));
            }
        }
        self.generation
    }

    /// Adds a late-resolving application to the active round, so DNS-SD
    /// timing cannot hide it until the next round, and rebuilds the rows.
    /// Nothing joins before the first round, and an application joins a
    /// round once.
    pub fn join(&mut self, application_id: String, name: String) -> (r: Option<u64>)
        requires
            old(self).wf(),
        ensures
            final(self).wf(),
            final(self).generation_of() == old(self).generation_of(),
            final(self).previous_rows_of() == old(self).previous_rows_of(),
            old(self).state_of() is Idle || ids_of(old(self).snapshots_of()).contains(application_id@)
                ==> r is None && final(self).snapshots_of() == old(self).snapshots_of()
                && final(self).state_of() == old(self).state_of() && final(self).rows_of() == old(self).rows_of(),
            !(old(self).state_of() is Idle) && !ids_of(old(self).snapshots_of()).contains(application_id@)
                ==> r == Some(old(self).generation_of()) && final(self).snapshots_of().len() == old(self).snapshots_of().len() + 1
                && ids_of(final(self).snapshots_of()).contains(application_id@)
                && final(self).state_of() is Searching
                && grouping(reported(final(self).snapshots_of()), final(self).rows_of())
                && reported(final(self).snapshots_of()) == reported(old(self).snapshots_of()),
    {
        let present = self.position_of(application_id.as_str());
        proof {
            if ids_of(self.snapshots@).contains(application_id@) {
                let k = choose|k: int| 0 <= k < ids_of(self.snapshots@).len() && ids_of(self.snapshots@)[k] == application_id@;
                assert(self.snapshots@[k].printer_application_id@ == application_id@);
            }
            if present.is_some() {
                let i = present.unwrap();
                assert(ids_of(self.snapshots@)[i as int] == application_id@);
            }
        }
        if self.state == AddPrinterDiscoveryState::Idle || present.is_some() {
            return None;
        }
        let ghost id = application_id@;
        let snapshot = PrinterApplicationDeviceSnapshot {
            printer_application_id: application_id,
            printer_application_name: name,
            state: PrinterApplicationScanState::Pending,
            candidates: Vec::new(),
            quarantined: 0,
        };
        let ghost before = self.snapshots@;
        let ghost made = snapshot;
        insert_ordered(&mut self.snapshots, snapshot);
        proof {
            assert(ids_of(self.snapshots@).contains(id));
            assert(self.snapshots@.len() == before.len() + 1);
            assert(!ids_of(before).contains(made.printer_application_id@));
            let p = choose|p: int| 0 <= p <= before.len() && self.snapshots@ == before.insert(p, made);
            assert(candidates_view(made.candidates@) =~= Seq::<CandidateView>::empty());
            lemma_reported_insert_empty(before, p, made);
        }
        self.recompute();
        proof {
            let k = choose|k: int| 0 <= k < ids_of(self.snapshots@).len() && ids_of(self.snapshots@)[k] == id;
            assert(self.snapshots@[k].printer_application_id@ == id);
            assert(!self.snapshots@[k].state.finished());
        }
        Some(self.generation)
    }

    /// Records that an application is being asked, only in the current
    /// round and only once.
    pub fn mark_searching(&mut self, generation: u64, application_id: &str) -> (r: bool)
        requires
            old(self).wf(),
        ensures
            final(self).wf(),
            final(self).generation_of() == old(self).generation_of(),
            final(self).state_of() == old(self).state_of(),
            final(self).rows_of() == old(self).rows_of(),
            final(self).previous_rows_of() == old(self).previous_rows_of(),
            final(self).snapshots_of().len() == old(self).snapshots_of().len(),
            r == (generation == old(self).generation_of() && exists|k: int| 0 <= k < old(self).snapshots_of().len()
                && (#[trigger] old(self).snapshots_of()[k]).printer_application_id@ == application_id@
                && !(old(self).snapshots_of()[k].state is Searching)),
            !r ==> final(self).snapshots_of() == old(self).snapshots_of(),
            forall|k: int| 0 <= k < final(self).snapshots_of().len() ==> {
                let before = old(self).snapshots_of()[k];
                let after = #[trigger] final(self).snapshots_of()[k];
                &&& after.printer_application_id == before.printer_application_id
                &&& after.printer_application_name == before.printer_application_name
                &&& after.candidates == before.candidates
                &&& after.quarantined == before.quarantined
                &&& after.state == if r && before.printer_application_id@ == application_id@ {
                    PrinterApplicationScanState::Searching
                } else {
                    before.state
                }
            },
    {
        if generation != self.generation {
            return false;
        }
        let k = match self.position_of(application_id) {
            Some(k) => k,
            None => return false,
        };
        if self.snapshots[k].state == PrinterApplicationScanState::Searching {
            proof {
                assert forall|t: int| 0 <= t < self.snapshots@.len() && (#[trigger] self.snapshots@[t]).printer_application_id@
                    == application_id@ implies self.snapshots@[t].state is Searching by {
                    lemma_ids_unique(self.snapshots@, t, k as int);
                }
            }
            return false;
        }
        let ghost before = self.snapshots@;
        self.snapshots[k].state = PrinterApplicationScanState::Searching;
        proof {
            let after = self.snapshots@;
            assert forall|t: int| 0 <= t < after.len() implies #[trigger] after[t].printer_application_id == before[t].printer_application_id
                && after[t].candidates == before[t].candidates by {}
            assert(well_ordered(after));
            lemma_reported_same(after, before);
            assert forall|t: int| 0 <= t < after.len() && before[t].printer_application_id@ == application_id@ implies t == k by {
                lemma_ids_unique(before, t, k as int);
            }
        }
        true
    }

    /// Replaces what one application reported, only in the current round.
    /// A scan that broke and found nothing keeps what the application last
    /// reported; an answer that changes nothing is ignored. Returns whether
    /// anything changed.
    pub fn replace_snapshot(
        &mut self,
        generation: u64,
        application_id: &str,
        state: PrinterApplicationScanState,
        candidates: Vec<PaConfigurationCandidate>,
        quarantined: usize,
    ) -> (r: bool)
        requires
            old(self).wf(),
        ensures
            final(self).wf(),
            final(self).generation_of() == old(self).generation_of(),
            final(self).previous_rows_of() == old(self).previous_rows_of(),
            final(self).snapshots_of().len() == old(self).snapshots_of().len(),
            generation != old(self).generation_of() || !ids_of(old(self).snapshots_of()).contains(application_id@)
                ==> !r,
            !r ==> final(self).snapshots_of() == old(self).snapshots_of() && final(self).state_of() == old(self).state_of()
                && final(self).rows_of() == old(self).rows_of(),
            forall|k: int| 0 <= k < old(self).snapshots_of().len() && generation == old(self).generation_of()
                && (#[trigger] old(self).snapshots_of()[k]).printer_application_id@ == application_id@ ==> {
                let before = old(self).snapshots_of()[k];
                let after = final(self).snapshots_of()[k];
                &&& r == !unchanged_report(before, state, candidates_view(candidates@), quarantined)
                &&& r ==> {
                    &&& after.state == state
                    &&& after.quarantined == quarantined
                    &&& after.printer_application_id == before.printer_application_id
                    &&& after.printer_application_name == before.printer_application_name
                    &&& candidates_view(after.candidates@) == if keeps_cached(state, candidates_view(candidates@)) {
                        candidates_view(before.candidates@)
                    } else {
                        candidates_view(candidates@)
                    }
                    &&& forall|t: int| 0 <= t < final(self).snapshots_of().len() && t != k
                        ==> #[trigger] final(self).snapshots_of()[t] == old(self).snapshots_of()[t]
                    &&& final(self).state_of() == round_state(final(self).snapshots_of())
                    &&& grouping(reported(final(self).snapshots_of()), final(self).rows_of())
                }
            },
    {
        if generation != self.generation {
            return false;
        }
        let k = match self.position_of(application_id) {
            Some(k) => k,
            None => {
                proof {
                    if ids_of(self.snapshots@).contains(application_id@) {
                        let t = choose|t: int| 0 <= t < ids_of(self.snapshots@).len() && ids_of(self.snapshots@)[t] == application_id@;
                        assert(self.snapshots@[t].printer_application_id@ == application_id@);
                    }
                }
                return false;
            },
        };
        proof {
            assert(ids_of(self.snapshots@)[k as int] == application_id@);
            assert forall|t: int| 0 <= t < self.snapshots@.len() && (#[trigger] self.snapshots@[t]).printer_application_id@
                == application_id@ implies t == k by {
                lemma_ids_unique(self.snapshots@, t, k as int);
            }
        }
        let keep = candidates.len() == 0 && state.scan_broke();
        proof {
            assert(keep == keeps_cached(state, candidates_view(candidates@)));
        }
        let unchanged = self.snapshots[k].state == state && self.snapshots[k].quarantined == quarantined && (keep
            || same_candidates_exec(&self.snapshots[k].candidates, &candidates));
        if unchanged {
            return false;
        }
        let ghost before = self.snapshots@;
        if !keep {
            self.snapshots[k].candidates = candidates;
        }
        self.snapshots[k].state = state;
        self.snapshots[k].quarantined = quarantined;
        proof {
            let after = self.snapshots@;
            assert forall|t: int| 0 <= t < after.len() implies #[trigger] after[t].printer_application_id
                == before[t].printer_application_id by {}
            assert(well_ordered(after));
            assert forall|t: int| 0 <= t < after.len() && t != k implies #[trigger] after[t] == before[t] by {}
        }
        self.recompute();
        true
    }

    /// Builds what a client is shown. The previous round's rows are shown,
    /// marked cached, while the current round has none yet; they can be
    /// displayed, never configured.
    pub fn reply(&self) -> (r: AddPrinterDiscoveryReply)
        ensures
            r.generation == self.generation_of(),
            r.state == self.state_of(),
            r.cached == (self.rows_of().len() == 0 && self.previous_rows_of().len() > 0),
            ({
                let shown = if r.cached { self.previous_rows_of() } else { self.rows_of() };
                &&& r.physical_printers@.len() == shown.len()
                &&& forall|t: int| 0 <= t < shown.len() ==> shows_row(#[trigger] r.physical_printers@[t], shown[t], self.snapshots_of())
            }),
            r.completed_printer_application_scans == finished_count(self.snapshots_of()) as u32,
            r.total_printer_application_scans == self.snapshots_of().len() as u32,
            r.any_printer_application_failed == exists|k: int| 0 <= k < self.snapshots_of().len()
                && (#[trigger] self.snapshots_of()[k]).state.gave_up(),
            r.printer_application_scans@.len() == self.snapshots_of().len(),
            forall|k: int| 0 <= k < self.snapshots_of().len() ==> {
                let status = #[trigger] r.printer_application_scans@[k];
                &&& status.printer_application_id@ == self.snapshots_of()[k].printer_application_id@
                &&& status.printer_application_name@ == self.snapshots_of()[k].printer_application_name@
                &&& status.state == self.snapshots_of()[k].state
            },
    {
        let cached = self.physical_printers.len() == 0 && self.previous_physical_printers.len() > 0;
        let shown = if cached { &self.previous_physical_printers } else { &self.physical_printers };
        let mut rows: Vec<DiscoveredPhysicalPrinter> = Vec::new();
        let mut t: usize = 0;
        while t < shown.len()
            invariant
                t <= shown@.len(),
                rows@.len() == t,
                forall|x: int| 0 <= x < t ==> shows_row(#[trigger] rows@[x], rows_view(shown@)[x], self.snapshots@),
            decreases shown.len() - t,
        {
            rows.push(self.row(&shown[t]));
            t += 1;
        }
        let mut completed: usize = 0;
        let mut any_failed = false;
        let mut scans: Vec<PrinterApplicationScanStatus> = Vec::new();
        let mut k: usize = 0;
        while k < self.snapshots.len()
            invariant
                k <= self.snapshots@.len(),
                completed == finished_count(self.snapshots@.take(k as int)),
                completed <= k,
                any_failed == exists|x: int| 0 <= x < k && (#[trigger] self.snapshots@[x]).state.gave_up(),
                scans@.len() == k,
                forall|x: int| 0 <= x < k ==> {
                    let status = #[trigger] scans@[x];
                    &&& status.printer_application_id@ == self.snapshots@[x].printer_application_id@
                    &&& status.printer_application_name@ == self.snapshots@[x].printer_application_name@
                    &&& status.state == self.snapshots@[x].state
                },
            decreases self.snapshots.len() - k,
        {
            proof {
                assert(self.snapshots@.take(k + 1).drop_last() =~= self.snapshots@.take(k as int));
            }
            if self.snapshots[k].state.is_finished() {
                completed += 1;
            }
            if self.snapshots[k].state.failed() {
                any_failed = true;
            }
            scans.push(PrinterApplicationScanStatus {
                printer_application_id: string_of(chars_of(self.snapshots[k].printer_application_id.as_str())),
                printer_application_name: string_of(chars_of(self.snapshots[k].printer_application_name.as_str())),
                state: self.snapshots[k].state,
            });
            k += 1;
        }
        proof {
            assert(self.snapshots@.take(self.snapshots@.len() as int) =~= self.snapshots@);
        }
        AddPrinterDiscoveryReply {
            generation: self.generation,
            state: self.state,
            physical_printers: rows,
            completed_printer_application_scans: completed as u32,
            total_printer_application_scans: self.snapshots.len() as u32,
            any_printer_application_failed: any_failed,
            printer_application_scans: scans,
            cached,
        }
    }

    fn application_name_exec(&self, id: &str) -> (r: String)
        ensures
            r@ == application_name(self.snapshots@, id@),
    {
        let wanted = chars_of(id);
        let mut k: usize = self.snapshots.len();
        proof {
            assert(self.snapshots@.take(k as int) =~= self.snapshots@);
        }
        while k > 0
            invariant
                k <= self.snapshots@.len(),
                wanted@ == id@,
                application_name(self.snapshots@, id@) == application_name(self.snapshots@.take(k as int), id@),
            decreases k,
        {
            proof {
                assert(self.snapshots@.take(k as int).drop_last() =~= self.snapshots@.take(k - 1));
            }
            if eq_vec(&chars_of(self.snapshots[k - 1].printer_application_id.as_str()), &wanted) {
                return string_of(chars_of(self.snapshots[k - 1].printer_application_name.as_str()));
            }
            k -= 1;
        }
        string_of(wanted)
    }

    fn row(&self, printer: &PhysicalPrinter) -> (r: DiscoveredPhysicalPrinter)
        ensures
            shows_row(r, printer@, self.snapshots@),
    {
        let mut candidates: Vec<PrinterApplicationCandidateSummary> = Vec::new();
        let mut q: usize = 0;
        while q < printer.candidates.len()
            invariant
                q <= printer.candidates@.len(),
                candidates@.len() == q,
                forall|x: int| 0 <= x < q ==> summarizes(#[trigger] candidates@[x], candidates_view(printer.candidates@)[x], self.snapshots@),
            decreases printer.candidates.len() - q,
        {
            let c = &printer.candidates[q];
            candidates.push(PrinterApplicationCandidateSummary {
                id: string_of(chars_of(c.id.as_str())),
                printer_application_id: string_of(chars_of(c.printer_application_id.as_str())),
                printer_application_name: self.application_name_exec(c.printer_application_id.as_str()),
                state: candidate_state(&c.driver_match),
            });
            q += 1;
        }
        DiscoveredPhysicalPrinter {
            id: string_of(chars_of(printer.id.as_str())),
            display_name: string_of(chars_of(printer.display_name.as_str())),
            make_and_model: crate::ipp::copy_opt(&printer.make_and_model),
            candidates,
        }
    }

    /// Finds a selection only in the row it names and only in the current
    /// round: cached rows of an earlier round are never found.
    pub fn resolve(&self, generation: u64, physical_printer_id: &str, candidate_id: &str) -> (r: Result<
        &PaConfigurationCandidate,
        ResolveError,
    >)
        ensures
            self.state_of() is Idle ==> r == Err::<&PaConfigurationCandidate, ResolveError>(ResolveError::NotStarted),
            !(self.state_of() is Idle) && generation != self.generation_of() ==> r == Err::<
                &PaConfigurationCandidate,
                ResolveError,
            >(ResolveError::Expired { generation: self.generation_of() }),
            !(self.state_of() is Idle) && generation == self.generation_of() ==> match row_position(
                self.rows_of(),
                physical_printer_id@,
                0,
            ) {
                None => r == Err::<&PaConfigurationCandidate, ResolveError>(ResolveError::PrinterNotFound),
                Some(t) => match candidate_position(self.rows_of()[t].candidates, candidate_id@, 0) {
                    None => r == Err::<&PaConfigurationCandidate, ResolveError>(ResolveError::CandidateNotFound),
                    Some(q) => r matches Ok(c) && c@ == self.rows_of()[t].candidates[q],
                },
            },
    {
        if self.state == AddPrinterDiscoveryState::Idle {
            return Err(ResolveError::NotStarted);
        }
        if generation != self.generation {
            return Err(ResolveError::Expired { generation: self.generation });
        }
        let ghost rows = rows_view(self.physical_printers@);
        let wanted_row = chars_of(physical_printer_id);
        let mut t: usize = 0;
        while t < self.physical_printers.len()
            invariant
                t <= self.physical_printers@.len(),
                rows == rows_view(self.physical_printers@),
                wanted_row@ == physical_printer_id@,
                !(self.state is Idle),
                generation == self.generation,
                row_position(rows, physical_printer_id@, 0) == row_position(rows, physical_printer_id@, t as int),
            decreases self.physical_printers.len() - t,
        {
            if eq_vec(&chars_of(self.physical_printers[t].id.as_str()), &wanted_row) {
                let printer = &self.physical_printers[t];
                let ghost members = rows[t as int].candidates;
                assert(members == candidates_view(printer.candidates@));
                assert(rows[t as int].id == physical_printer_id@);
                let wanted = chars_of(candidate_id);
                let mut q: usize = 0;
                while q < printer.candidates.len()
                    invariant
                        q <= printer.candidates@.len(),
                        members == candidates_view(printer.candidates@),
                        wanted@ == candidate_id@,
                        !(self.state is Idle),
                        generation == self.generation,
                        t < rows.len(),
                        rows == rows_view(self.physical_printers@),
                        rows[t as int].candidates == members,
                        row_position(rows, physical_printer_id@, 0) == Some(t as int),
                        candidate_position(members, candidate_id@, 0) == candidate_position(members, candidate_id@, q as int),
                    decreases printer.candidates.len() - q,
                {
                    if eq_vec(&chars_of(printer.candidates[q].id.as_str()), &wanted) {
                        return Ok(&printer.candidates[q]);
                    }
                    q += 1;
                }
                return Err(ResolveError::CandidateNotFound);
            }
            t += 1;
        }
        Err(ResolveError::PrinterNotFound)
    }

    /// Whether an application of the round still reports a candidate with
    /// this identifier.
    pub fn candidate_is_current(&self, candidate_id: &str) -> (r: bool)
        ensures
            r == exists|k: int, q: int| 0 <= k < self.snapshots_of().len() && 0 <= q < self.snapshots_of()[k].candidates@.len()
                && (#[trigger] self.snapshots_of()[k].candidates@[q]).id@ == candidate_id@,
    {
        let wanted = chars_of(candidate_id);
        let mut k: usize = 0;
        while k < self.snapshots.len()
            invariant
                k <= self.snapshots@.len(),
                wanted@ == candidate_id@,
                forall|x: int, q: int| 0 <= x < k && 0 <= q < self.snapshots@[x].candidates@.len()
                    ==> (#[trigger] self.snapshots@[x].candidates@[q]).id@ != candidate_id@,
            decreases self.snapshots.len() - k,
        {
            let mut q: usize = 0;
            while q < self.snapshots[k].candidates.len()
                invariant
                    k < self.snapshots@.len(),
                    q <= self.snapshots@[k as int].candidates@.len(),
                    wanted@ == candidate_id@,
                    forall|x: int, y: int| 0 <= x < k && 0 <= y < self.snapshots@[x].candidates@.len()
                        ==> (#[trigger] self.snapshots@[x].candidates@[y]).id@ != candidate_id@,
                    forall|y: int| 0 <= y < q ==> (#[trigger] self.snapshots@[k as int].candidates@[y]).id@ != candidate_id@,
                decreases self.snapshots[k as int].candidates@.len() - q,
            {
                if eq_vec(&chars_of(self.snapshots[k].candidates[q].id.as_str()), &wanted) {
                    return true;
                }
                q += 1;
            }
            k += 1;
        }
        false
    }

    /// Drops an application that is no longer advertised, and what it
    /// reported. Returns whether it took part in the round.
    pub fn remove_application(&mut self, application_id: &str) -> (r: bool)
        requires
            old(self).wf(),
        ensures
            final(self).wf(),
            final(self).generation_of() == old(self).generation_of(),
            final(self).previous_rows_of() == old(self).previous_rows_of(),
            r == ids_of(old(self).snapshots_of()).contains(application_id@),
            !r ==> final(self).snapshots_of() == old(self).snapshots_of() && final(self).state_of() == old(self).state_of()
                && final(self).rows_of() == old(self).rows_of(),
            r ==> !ids_of(final(self).snapshots_of()).contains(application_id@)
                && (exists|k: int| 0 <= k < old(self).snapshots_of().len()
                && (#[trigger] old(self).snapshots_of()[k]).printer_application_id@ == application_id@
                && final(self).snapshots_of() == old(self).snapshots_of().remove(k))
                && final(self).state_of() == round_state(final(self).snapshots_of())
                && grouping(reported(final(self).snapshots_of()), final(self).rows_of()),
    {
        let k = match self.position_of(application_id) {
            Some(k) => k,
            None => {
                proof {
                    if ids_of(self.snapshots@).contains(application_id@) {
                        let t = choose|t: int| 0 <= t < ids_of(self.snapshots@).len() && ids_of(self.snapshots@)[t] == application_id@;
                        assert(self.snapshots@[t].printer_application_id@ == application_id@);
                    }
                }
                return false;
            },
        };
        let ghost before = self.snapshots@;
        proof {
            assert(ids_of(before)[k as int] == application_id@);
            lemma_well_ordered_remove(before, k as int);
        }
        self.snapshots.remove(k);
        self.recompute();
        proof {
            let after = self.snapshots@;
            assert(after == before.remove(k as int));
            if ids_of(after).contains(application_id@) {
                let t = choose|t: int| 0 <= t < ids_of(after).len() && ids_of(after)[t] == application_id@;
                let u = if t < k { t } else { t + 1 };
                assert(before[u] == after[t]);
                lemma_ids_unique(before, u, k as int);
            }
        }
        true
    }
}

/// Whether two candidate lists say the same: same identifiers, driver
/// support and number of endpoints, in the same order.
pub open spec fn same_candidates(a: Seq<CandidateView>, b: Seq<CandidateView>) -> bool {
    &&& a.len() == b.len()
    &&& forall|k: int| 0 <= k < a.len() ==> {
        &&& (#[trigger] a[k]).id == b[k].id
        &&& a[k].driver_match == b[k].driver_match
        &&& a[k].endpoints.len() == b[k].endpoints.len()
    }
}

/// A scan that broke and found nothing keeps what the application last
/// reported.
pub open spec fn keeps_cached(state: PrinterApplicationScanState, incoming: Seq<CandidateView>) -> bool {
    incoming.len() == 0 && state.broke()
}

/// Whether an answer changes nothing an application's snapshot shows.
pub open spec fn unchanged_report(
    snapshot: PrinterApplicationDeviceSnapshot,
    state: PrinterApplicationScanState,
    incoming: Seq<CandidateView>,
    quarantined: usize,
) -> bool {
    &&& snapshot.state == state
    &&& snapshot.quarantined == quarantined
    &&& (keeps_cached(state, incoming) || same_candidates(candidates_view(snapshot.candidates@), incoming))
}

fn same_candidates_exec(a: &Vec<PaConfigurationCandidate>, b: &Vec<PaConfigurationCandidate>) -> (r: bool)
    ensures
        r == same_candidates(candidates_view(a@), candidates_view(b@)),
{
    if a.len() != b.len() {
        return false;
    }
    let mut k: usize = 0;
    while k < a.len()
        invariant
            k <= a@.len(),
            a@.len() == b@.len(),
            forall|x: int| 0 <= x < k ==> {
                &&& (#[trigger] candidates_view(a@)[x]).id == candidates_view(b@)[x].id
                &&& candidates_view(a@)[x].driver_match == candidates_view(b@)[x].driver_match
                &&& candidates_view(a@)[x].endpoints.len() == candidates_view(b@)[x].endpoints.len()
            },
        decreases a.len() - k,
    {
        let same = crate::text::str_eq(a[k].id.as_str(), b[k].id.as_str()) && a[k].driver_match.same_as(&b[k].driver_match)
            && a[k].endpoints.len() == b[k].endpoints.len();
        if !same {
            proof {
                assert(candidates_view(a@)[k as int] == a@[k as int]@);
                assert(candidates_view(b@)[k as int] == b@[k as int]@);
            }
            return false;
        }
        proof {
            assert(candidates_view(a@)[k as int] == a@[k as int]@);
            assert(candidates_view(b@)[k as int] == b@[k as int]@);
        }
        k += 1;
    }
    true
}

/// What a round reports depends only on each application's candidates.
/// A reply never counts more finished scans than applications in the
/// round.
pub proof fn finished_scans_within_total(snapshots: Seq<PrinterApplicationDeviceSnapshot>)
    ensures
        finished_count(snapshots) <= snapshots.len(),
    decreases snapshots.len(),
{
    if snapshots.len() > 0 {
        finished_scans_within_total(snapshots.drop_last());
    }
}

/// Rows shown as cached are never configured: while the current round has
/// no rows of its own (which is when a reply shows the previous round's
/// rows, marked cached), no physical printer is found in it, so no
/// selection resolves.
pub proof fn cached_rows_never_resolve(d: AddPrinterDiscovery, physical_printer_id: Seq<char>)
    requires
        d.rows_of().len() == 0,
    ensures
        row_position(d.rows_of(), physical_printer_id, 0) is None,
{
}

pub proof fn lemma_reported_same(s1: Seq<PrinterApplicationDeviceSnapshot>, s2: Seq<PrinterApplicationDeviceSnapshot>)
    requires
        s1.len() == s2.len(),
        forall|t: int| 0 <= t < s1.len() ==> (#[trigger] s1[t]).candidates@ == s2[t].candidates@,
    ensures
        reported(s1) == reported(s2),
    decreases s1.len(),
{
    if s1.len() > 0 {
        assert(s1.last().candidates@ == s2.last().candidates@);
        lemma_reported_same(s1.drop_last(), s2.drop_last());
    }
}

/// Dropping an application keeps the others in order.
proof fn lemma_well_ordered_remove(s: Seq<PrinterApplicationDeviceSnapshot>, k: int)
    requires
        well_ordered(s),
        0 <= k < s.len(),
    ensures
        well_ordered(s.remove(k)),
{
    let r = s.remove(k);
    assert forall|i: int, j: int| 0 <= i < j < r.len() implies lex_lt(
        #[trigger] r[i].printer_application_id@,
        #[trigger] r[j].printer_application_id@,
    ) by {
        let a = if i < k { i } else { i + 1 };
        let b = if j < k { j } else { j + 1 };
        assert(r[i] == s[a] && r[j] == s[b]);
    }
}

/// An application that reports nothing adds nothing to what a round
/// reports, wherever it is listed.
pub proof fn lemma_reported_insert_empty(s: Seq<PrinterApplicationDeviceSnapshot>, p: int, x: PrinterApplicationDeviceSnapshot)
    requires
        0 <= p <= s.len(),
        candidates_view(x.candidates@).len() == 0,
    ensures
        reported(s.insert(p, x)) == reported(s),
    decreases s.len(),
{
    if p == s.len() {
        assert(s.insert(p, x).drop_last() =~= s);
        assert(reported(s) + candidates_view(x.candidates@) =~= reported(s));
    } else {
        assert(s.insert(p, x).drop_last() =~= s.drop_last().insert(p, x));
        assert(s.insert(p, x).last() == s.last());
        lemma_reported_insert_empty(s.drop_last(), p, x);
    }
}

/// The candidates an application carries into a new round: those it last
/// reported, if it took part in the previous one.
pub open spec fn carried(before: Seq<PrinterApplicationDeviceSnapshot>, id: Seq<char>) -> Seq<CandidateView>
    decreases before.len(),
{
    if before.len() == 0 {
        Seq::empty()
    } else if before.last().printer_application_id@ == id {
        candidates_view(before.last().candidates@)
    } else {
        carried(before.drop_last(), id)
    }
}

/// In a round, an identifier names one application.
pub proof fn lemma_ids_unique(snapshots: Seq<PrinterApplicationDeviceSnapshot>, a: int, b: int)
    requires
        well_ordered(snapshots),
        0 <= a < snapshots.len(),
        0 <= b < snapshots.len(),
        snapshots[a].printer_application_id@ == snapshots[b].printer_application_id@,
    ensures
        a == b,
{
    if a < b {
        crate::text::lemma_lex_irreflexive(snapshots[a].printer_application_id@);
    } else if b < a {
        crate::text::lemma_lex_irreflexive(snapshots[a].printer_application_id@);
    }
}

proof fn lemma_carried(before: Seq<PrinterApplicationDeviceSnapshot>, c: int)
    requires
        well_ordered(before),
        0 <= c < before.len(),
    ensures
        carried(before, before[c].printer_application_id@) == candidates_view(before[c].candidates@),
    decreases before.len(),
{
    let id = before[c].printer_application_id@;
    if c < before.len() - 1 {
        if before.last().printer_application_id@ == id {
            lemma_ids_unique(before, c, before.len() - 1);
        }
        assert(well_ordered(before.drop_last()));
        assert(before.drop_last()[c] == before[c]);
        lemma_carried(before.drop_last(), c);
    }
}

proof fn lemma_not_carried(before: Seq<PrinterApplicationDeviceSnapshot>, id: Seq<char>)
    requires
        !ids_of(before).contains(id),
    ensures
        carried(before, id) == Seq::<CandidateView>::empty(),
    decreases before.len(),
{
    if before.len() > 0 {
        assert(ids_of(before)[before.len() - 1] == before.last().printer_application_id@);
        assert(!ids_of(before.drop_last()).contains(id)) by {
            if ids_of(before.drop_last()).contains(id) {
                let k = choose|k: int| 0 <= k < ids_of(before.drop_last()).len() && ids_of(before.drop_last())[k] == id;
                assert(ids_of(before)[k] == id);
            }
        }
        lemma_not_carried(before.drop_last(), id);
    }
}

fn position_in(snapshots: &Vec<PrinterApplicationDeviceSnapshot>, application_id: &str) -> (r: Option<usize>)
    ensures
        match r {
            Some(i) => i < snapshots@.len() && snapshots@[i as int].printer_application_id@ == application_id@,
            None => forall|i: int| 0 <= i < snapshots@.len() ==> (#[trigger] snapshots@[i]).printer_application_id@ != application_id@,
        },
{
    let wanted = chars_of(application_id);
    let mut i: usize = 0;
    while i < snapshots.len()
        invariant
            i <= snapshots.len(),
            wanted@ == application_id@,
            forall|k: int| 0 <= k < i ==> (#[trigger] snapshots@[k]).printer_application_id@ != application_id@,
        decreases snapshots.len() - i,
    {
        if eq_vec(&chars_of(snapshots[i].printer_application_id.as_str()), &wanted) {
            return Some(i);
        }
        i += 1;
    }
    None
}

impl Default for AddPrinterDiscovery {
    /// No round yet.
    fn default() -> (r: Self)
        ensures
            r.wf(),
            r.generation_of() == 0,
            r.state_of() is Idle,
            r.snapshots_of().len() == 0,
            r.rows_of().len() == 0,
            r.previous_rows_of().len() == 0,
    {
        AddPrinterDiscovery::new()
    }
}

/// Inserts a snapshot in identifier order, replacing one with the same
/// identifier.
fn insert_ordered(snapshots: &mut Vec<PrinterApplicationDeviceSnapshot>, snapshot: PrinterApplicationDeviceSnapshot)
    requires
        well_ordered(old(snapshots)@),
    ensures
        well_ordered(final(snapshots)@),
        forall|id: Seq<char>| ids_of(final(snapshots)@).contains(id) <==> (ids_of(old(snapshots)@).contains(id) || id == snapshot.printer_application_id@),
        forall|k: int| 0 <= k < final(snapshots)@.len() ==> (#[trigger] final(snapshots)@[k] == snapshot || old(snapshots)@.contains(final(snapshots)@[k])),
        ids_of(old(snapshots)@).contains(snapshot.printer_application_id@) ==> final(snapshots)@.len() == old(snapshots)@.len(),
        !ids_of(old(snapshots)@).contains(snapshot.printer_application_id@) ==> final(snapshots)@.len() == old(snapshots)@.len() + 1
            && exists|p: int| 0 <= p <= old(snapshots)@.len() && final(snapshots)@ == old(snapshots)@.insert(p, snapshot),
        ids_of(old(snapshots)@).contains(snapshot.printer_application_id@) ==> exists|p: int| 0 <= p < old(snapshots)@.len()
            && final(snapshots)@ == old(snapshots)@.update(p, snapshot)
            && old(snapshots)@[p].printer_application_id@ == snapshot.printer_application_id@,
{
    let id = chars_of(snapshot.printer_application_id.as_str());
    let ghost before = snapshots@;
    let mut p: usize = 0;
    while p < snapshots.len() && lex_lt_exec(&chars_of(snapshots[p].printer_application_id.as_str()), &id)
        invariant
            p <= snapshots.len(),
            before == snapshots@,
            id@ == snapshot.printer_application_id@,
            forall|j: int| 0 <= j < p ==> lex_lt(#[trigger] before[j].printer_application_id@, id@),
        decreases snapshots.len() - p,
    {
        p += 1;
    }
    let ghost x = snapshot.printer_application_id@;
    if p < snapshots.len() && eq_vec(&chars_of(snapshots[p].printer_application_id.as_str()), &id) {
        snapshots.set(p, snapshot);
        proof {
            let after = snapshots@;
            assert(after == before.update(p as int, snapshot));
            assert forall|a: int, b: int| 0 <= a < b < after.len() implies lex_lt(
                #[trigger] after[a].printer_application_id@,
                #[trigger] after[b].printer_application_id@,
            ) by {
                if a == p {
                    assert(before[a].printer_application_id@ == x);
                } else if b == p {
                    assert(before[b].printer_application_id@ == x);
                }
            }
            assert forall|y: Seq<char>| ids_of(after).contains(y) <==> (ids_of(before).contains(y) || y == x) by {
                if ids_of(after).contains(y) {
                    let k = choose|k: int| 0 <= k < ids_of(after).len() && ids_of(after)[k] == y;
                    if k != p {
                        assert(ids_of(before)[k] == y);
                    }
                }
                if ids_of(before).contains(y) {
                    let k = choose|k: int| 0 <= k < ids_of(before).len() && ids_of(before)[k] == y;
                    if k == p {
                        assert(ids_of(after)[p as int] == y);
                    } else {
                        assert(ids_of(after)[k] == y);
                    }
                }
                if y == x {
                    assert(ids_of(after)[p as int] == y);
                }
            }
            assert(ids_of(before)[p as int] == x);
            assert forall|k: int| 0 <= k < after.len() implies (#[trigger] after[k] == snapshot || before.contains(after[k])) by {
                if k != p {
                    assert(after[k] == before[k]);
                }
            }
        }
    } else {
        snapshots.insert(p, snapshot);
        proof {
            let after = snapshots@;
            assert(after =~= before.take(p as int).push(snapshot) + before.skip(p as int));
            assert(after =~= before.insert(p as int, snapshot));
            if p < before.len() {
                crate::text::lemma_lex_total(before[p as int].printer_application_id@, x);
            }
            assert forall|a: int, b: int| 0 <= a < b < after.len() implies lex_lt(
                #[trigger] after[a].printer_application_id@,
                #[trigger] after[b].printer_application_id@,
            ) by {
                if b < p {
                    assert(after[a] == before[a] && after[b] == before[b]);
                } else if b == p {
                    assert(after[a] == before[a]);
                } else if a == p {
                    assert(after[b] == before[b - 1]);
                    if b - 1 > p {
                        assert(lex_lt(before[p as int].printer_application_id@, before[b - 1].printer_application_id@));
                        crate::text::lemma_lex_transitive(x, before[p as int].printer_application_id@, before[b - 1].printer_application_id@);
                    }
                } else if a < p {
                    assert(after[a] == before[a] && after[b] == before[b - 1]);
                } else {
                    assert(after[a] == before[a - 1] && after[b] == before[b - 1]);
                }
            }
            assert forall|y: Seq<char>| ids_of(after).contains(y) <==> (ids_of(before).contains(y) || y == x) by {
                if ids_of(after).contains(y) {
                    let k = choose|k: int| 0 <= k < ids_of(after).len() && ids_of(after)[k] == y;
                    if k < p {
                        assert(ids_of(before)[k] == y);
                    } else if k > p {
                        assert(ids_of(before)[k - 1] == y);
                    }
                }
                if ids_of(before).contains(y) {
                    let k = choose|k: int| 0 <= k < ids_of(before).len() && ids_of(before)[k] == y;
                    if k < p {
                        assert(ids_of(after)[k] == y);
                    } else {
                        assert(ids_of(after)[k + 1] == y);
                    }
                }
                if y == x {
                    assert(ids_of(after)[p as int] == y);
                }
            }
            assert(!ids_of(before).contains(x)) by {
                if ids_of(before).contains(x) {
                    let k = choose|k: int| 0 <= k < ids_of(before).len() && ids_of(before)[k] == x;
                    if k < p {
                        crate::text::lemma_lex_irreflexive(x);
                    } else if k == p {
                    } else {
                        assert(lex_lt(before[p as int].printer_application_id@, before[k].printer_application_id@));
                        crate::text::lemma_lex_transitive(x, before[p as int].printer_application_id@, x);
                        crate::text::lemma_lex_irreflexive(x);
                    }
                }
            }
            assert forall|k: int| 0 <= k < after.len() implies (#[trigger] after[k] == snapshot || before.contains(after[k])) by {
                if k < p {
                    assert(after[k] == before[k]);
                } else if k > p {
                    assert(after[k] == before[k - 1]);
                }
            }
        }
    }
}

} // verus!
