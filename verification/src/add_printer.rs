//! The Add Printer dialog: which view it shows, what each message does to
//! it and which work it asks its host to carry out, and how a failed setup
//! is reported to the person adding the printer.

use vstd::prelude::*;
use crate::application::PrinterApplicationState;
use crate::backend::BackendError;
use crate::configuration::{ConfigureDiscoveredPrinterRequest, ConfigurePrinterReply, PrinterConfigurationState};
use crate::entry::PrinterEntry;
use crate::errors::Error;
use crate::round::{AddPrinterDiscoveryReply, AddPrinterDiscoveryState, DiscoveredPhysicalPrinter, PaCandidateState};
use crate::text::{chars_of, eq_vec, string_of};

verus! {

/// Active Add Printer dialog view.
#[derive(Clone, Debug, PartialEq, Eq)]
pub enum DialogView {
    /// Displays discovered printers.
    Discovery,
    /// Selects a Printer Application.
    SelectApplication {
        /// Printer awaiting configuration.
        printer_id: String,
    },
    /// Displays manual setup options.
    ManualSetup,
    /// Displays configuration progress.
    Adding {
        /// Printer being configured.
        printer_id: String,
    },
    /// Displays configuration completion.
    Added,
}

/// Errors from configuring a discovered printer.
#[derive(Clone, Debug)]
pub enum SetupError {
    /// Requires setup through the Printer Application.
    ManualSetup {
        /// Optional setup page.
        web_interface_uri: Option<String>,
    },
    /// Configuration failed.
    Failed(String),
}

/// The setup error a backend error becomes: a request to finish the setup
/// in the Printer Application keeps the page it offers; every other error
/// is a failure, described in words.
pub fn setup_error(error: BackendError) -> (r: SetupError)
    ensures
        match error {
            BackendError::Service(Error::PrinterConfigurationManualActionRequired {
                web_interface_uri,
                ..
            }) => r == SetupError::ManualSetup { web_interface_uri },
            _ => r is Failed,
        },
        error matches BackendError::Unavailable(why) ==> r matches SetupError::Failed(text)
            && text@ == why@,
{
    match error {
        BackendError::Service(Error::PrinterConfigurationManualActionRequired {
            web_interface_uri,
            ..
        }) => SetupError::ManualSetup { web_interface_uri },
        other => SetupError::Failed(other.describe()),
    }
}

/// Whether the dialog is showing the progress of a setup.
pub fn is_adding(view: &DialogView) -> (r: bool)
    ensures
        r <==> view is Adding,
{
    match view {
        DialogView::Adding { .. } => true,
        _ => false,
    }
}

/// What the dialog tells the person, before it is put into words.
#[derive(Clone, Debug, PartialEq, Eq)]
pub enum DialogNotice {
    /// Discovery could not be loaded.
    FailedToLoadPrinters,
    /// The printer that was picked is not among those found.
    NoPrintersFound,
    /// Setup failed, for the reason given.
    Failed(String),
    /// The printer could not be added.
    FailedToAddPrinter,
    /// Setup has to continue in a Printer Application that offers no page.
    WebInterfaceUnavailable,
    /// A page could not be opened; the person can open this address.
    OpenPageManually(String),
}

impl DialogNotice {
    /// The identifier of the message that puts the notice into words; a
    /// failure reason is shown as it is.
    pub fn message_id(&self) -> (r: Option<&'static str>)
        ensures
            self is Failed <==> r is None,
    {
        match self {
            DialogNotice::FailedToLoadPrinters => Some("failed-to-load-printers"),
            DialogNotice::NoPrintersFound => Some("no-printers-found"),
            DialogNotice::Failed(_) => None,
            DialogNotice::FailedToAddPrinter => Some("failed-to-add-printer"),
            DialogNotice::WebInterfaceUnavailable => Some("printer-application-web-interface-unavailable"),
            DialogNotice::OpenPageManually(_) => Some("open-printer-application-page-manually"),
        }
    }
}

/// A Printer Application that can be set up through its own pages.
#[derive(Clone, Debug)]
pub struct ManualSetupPrinterApplication {
    pub printer_application_id: String,
    pub display_name: String,
    pub web_interface_uri: String,
    pub state: PrinterApplicationState,
}

/// A snapshot of a round of discovery.
#[derive(Clone, Debug)]
pub struct Load {
    pub discovery: AddPrinterDiscoveryReply,
    pub manual_setup_applications: Vec<ManualSetupPrinterApplication>,
}

/// A printer added in this dialog.
#[derive(Clone, Debug)]
pub struct AddedPrinter {
    pub name: String,
    pub destination_id: Option<String>,
}

/// Messages handled by the Add Printer dialog.
#[derive(Debug)]
pub enum Message {
    Close,
    DragWindow,
    ToggleMaximizeWindow,
    Search(String),
    Loaded(Result<Load, String>),
    ConfigurationChanged,
    OpenManualSetup,
    SelectDiscoveredPrinter(String),
    SelectPrinterApplication(String),
    OpenPrinterWebPage(String),
    PrinterSetupFinished(Result<ConfigurePrinterReply, SetupError>),
    WebPageOpened(Result<(), (String, String)>),
}

/// Work the dialog asks its host to carry out.
#[derive(Debug)]
pub enum Action {
    /// Nothing to do.
    Nothing,
    Close,
    /// Start moving this window.
    DragWindow(u64),
    /// Maximize or restore this window.
    ToggleMaximizeWindow(u64),
    /// Refresh the configured printers.
    RefreshPrinters,
    /// Refresh the configured printers and start discovery over.
    RediscoverPrinters,
    /// Start a round of discovery and load it.
    StartDiscovery,
    /// Ask for this printer to be configured.
    Configure(ConfigureDiscoveredPrinterRequest),
    /// Ask how this configuration is going.
    PollConfiguration(String),
    /// Open this page.
    OpenWebPage(String),
}

/// Whether a candidate can be chosen.
pub open spec fn is_selectable(state: PaCandidateState) -> bool {
    state is Ready
}

/// The candidates of a row that can be chosen, by identifier.
pub open spec fn selectable_ids(printer: DiscoveredPhysicalPrinter) -> Seq<Seq<char>>
    decreases printer.candidates@.len(),
{
    selectable_prefix(printer.candidates@, printer.candidates@.len() as int)
}

pub open spec fn selectable_prefix(c: Seq<crate::round::PrinterApplicationCandidateSummary>, n: int) -> Seq<Seq<char>>
    decreases n,
{
    if n <= 0 || n > c.len() {
        Seq::empty()
    } else {
        let before = selectable_prefix(c, n - 1);
        if is_selectable(c[n - 1].state) {
            before.push(c[n - 1].id@)
        } else {
            before
        }
    }
}

/// The candidates of a row that can be chosen, by identifier.
pub fn selectable_candidate_ids(printer: &DiscoveredPhysicalPrinter) -> (r: Vec<String>)
    ensures
        r@.map_values(|s: String| s@) == selectable_ids(*printer),
{
    let mut ids: Vec<String> = Vec::new();
    let mut i: usize = 0;
    while i < printer.candidates.len()
        invariant
            i <= printer.candidates@.len(),
            ids@.map_values(|s: String| s@) == selectable_prefix(printer.candidates@, i as int),
        decreases printer.candidates.len() - i,
    {
        if printer.candidates[i].state == PaCandidateState::Ready {
            let ghost before = ids@;
            ids.push(string_of(chars_of(printer.candidates[i].id.as_str())));
            proof {
                assert(ids@.map_values(|s: String| s@) =~= before.map_values(|s: String| s@).push(printer.candidates@[i as int].id@));
            }
        }
        i += 1;
    }
    ids
}

/// Whether a row is a printer that is already set up.
pub open spec fn is_configured_spec(printer: DiscoveredPhysicalPrinter) -> bool {
    exists|q: int| 0 <= q < printer.candidates@.len() && (#[trigger] printer.candidates@[q]).state is AlreadyConfigured
}

/// Whether a row is a printer that is already set up.
pub fn is_configured(printer: &DiscoveredPhysicalPrinter) -> (r: bool)
    ensures
        r == is_configured_spec(*printer),
{
    let mut i: usize = 0;
    while i < printer.candidates.len()
        invariant
            i <= printer.candidates@.len(),
            forall|q: int| 0 <= q < i ==> !((#[trigger] printer.candidates@[q]).state is AlreadyConfigured),
        decreases printer.candidates.len() - i,
    {
        if printer.candidates[i].state == PaCandidateState::AlreadyConfigured {
            return true;
        }
        i += 1;
    }
    false
}

/// The first row with this identifier.
pub open spec fn printer_index(printers: Seq<DiscoveredPhysicalPrinter>, id: Seq<char>, from: int) -> Option<int>
    decreases printers.len() - from,
    when 0 <= from
{
    if from >= printers.len() {
        None
    } else if printers[from].id@ == id {
        Some(from)
    } else {
        printer_index(printers, id, from + 1)
    }
}

/// The rows a dialog shows.
pub open spec fn rows_of(discovery: Option<AddPrinterDiscoveryReply>) -> Seq<DiscoveredPhysicalPrinter> {
    match discovery {
        Some(d) => d.physical_printers@,
        None => Seq::empty(),
    }
}

/// The round a selection may be configured in: the current one, never a
/// cached earlier one.
pub open spec fn selectable_generation(discovery: Option<AddPrinterDiscoveryReply>) -> Option<u64> {
    match discovery {
        Some(d) => if d.cached { None } else { Some(d.generation) },
        None => None,
    }
}


/// The request that configures a chosen candidate.
pub open spec fn configure_request_for(
    req: ConfigureDiscoveredPrinterRequest,
    generation: u64,
    printer_id: Seq<char>,
    candidate_id: Seq<char>,
) -> bool {
    &&& req.discovery_generation == generation
    &&& req.physical_printer_id@ == printer_id
    &&& req.candidate_id@ == candidate_id
    &&& req.requested_display_name is None
}

/// Only the fields named as changing differ.
pub open spec fn same_except_view_error(a: State, b: State) -> bool {
    &&& a.window_id == b.window_id
    &&& a.search == b.search
    &&& a.configured_printers == b.configured_printers
    &&& a.discovery == b.discovery
    &&& a.manual_setup_applications == b.manual_setup_applications
    &&& a.pending_operation == b.pending_operation
    &&& a.added == b.added
}

/// Starting setup of a candidate: nothing while a setup runs; a selection
/// from a cached round starts discovery over instead; otherwise the dialog
/// shows the setup and asks for the printer to be configured.
pub open spec fn setup_started(old: State, new: State, printer_id: Seq<char>, candidate_id: Seq<char>, r: Action) -> bool {
    if old.view is Adding {
        new == old && r is Nothing
    } else {
        &&& same_except_view_error(old, new)
        &&& match selectable_generation(old.discovery) {
            None => new.view == DialogView::Discovery && new.error == old.error && r is StartDiscovery,
            Some(g) => (new.view matches DialogView::Adding { printer_id: p } && p@ == printer_id)
                && new.error is None && (r matches Action::Configure(req) && configure_request_for(req, g, printer_id, candidate_id)),
        }
    }
}

/// A round of discovery loaded, or failing to load.
pub open spec fn load_applied(old: State, new: State, result: Result<Load, String>) -> bool {
    match result {
        Ok(load) => new == State {
            error: None,
            discovery: Some(load.discovery),
            manual_setup_applications: load.manual_setup_applications,
            ..old
        },
        Err(_) => new == State { error: Some(DialogNotice::FailedToLoadPrinters), ..old },
    }
}

/// Opening manual setup, unless a setup runs.
pub open spec fn manual_opened(old: State, new: State) -> bool {
    if old.view is Adding {
        new == old
    } else {
        same_except_view_error(old, new) && new.view == DialogView::ManualSetup && new.error is None
    }
}

/// Picking a discovered printer: ignored while discovery runs or a setup
/// runs; an unknown printer is reported; a printer no application can set
/// up leads to manual setup; one offered by a single application is set
/// up at once; otherwise the person picks the application.
pub open spec fn printer_selected(old: State, new: State, printer_id: Seq<char>, r: Action) -> bool {
    if old.searching() || old.view is Adding {
        new == old && r is Nothing
    } else {
        match printer_index(rows_of(old.discovery), printer_id, 0) {
            None => same_except_view_error(old, new) && new.view == old.view && new.error == Some(DialogNotice::NoPrintersFound)
                && r is Nothing,
            Some(i) => {
                let ids = selectable_ids(rows_of(old.discovery)[i]);
                if ids.len() == 0 {
                    manual_opened(old, new) && r is Nothing
                } else if ids.len() == 1 {
                    setup_started(old, new, printer_id, ids[0], r)
                } else {
                    &&& same_except_view_error(old, new)
                    &&& new.error is None
                    &&& new.view matches DialogView::SelectApplication { printer_id: p } && p@ == printer_id
                    &&& r is Nothing
                }
            },
        }
    }
}

/// Picking the application for the printer being chosen: only a candidate
/// the printer offers starts a setup.
pub open spec fn application_selected(old: State, new: State, candidate_id: Seq<char>, r: Action) -> bool {
    match old.view {
        DialogView::SelectApplication { printer_id } => {
            let offered = match printer_index(rows_of(old.discovery), printer_id@, 0) {
                Some(i) => selectable_ids(rows_of(old.discovery)[i]).contains(candidate_id),
                None => false,
            };
            if offered {
                setup_started(old, new, printer_id@, candidate_id, r)
            } else {
                new == old && r is Nothing
            }
        },
        _ => new == old && r is Nothing,
    }
}

/// Continuing setup in the Printer Application: the dialog shows manual
/// setup and opens the page it offers, or says it offers none.
pub open spec fn continued_in_application(old: State, new: State, web_interface_uri: Option<String>, r: Action) -> bool {
    &&& same_except_view_error(old, new)
    &&& new.view == DialogView::ManualSetup
    &&& match web_interface_uri {
        Some(page) => new.error == old.error && (r matches Action::OpenWebPage(p) && p@ == page@),
        None => new.error == Some(DialogNotice::WebInterfaceUnavailable) && r is Nothing,
    }
}

/// What a configuration reply does to the dialog, its pending operation
/// already cleared.
pub open spec fn configuration_applied(old: State, new: State, reply: ConfigurePrinterReply, r: Action) -> bool {
    match reply.state {
        PrinterConfigurationState::Creating => {
            &&& new.view == old.view && new.error == old.error
            &&& new.pending_operation matches Some(op) && op@ == reply.operation_id@
            &&& new.added == old.added && new.discovery == old.discovery && new.search == old.search
            &&& r is RefreshPrinters
        },
        PrinterConfigurationState::AwaitingAdvertisement
        | PrinterConfigurationState::Reconciled
        | PrinterConfigurationState::AlreadyConfigured => {
            &&& new.error is None
            &&& new.view == DialogView::Added
            &&& new.added@.len() == old.added@.len() + 1
            &&& new.added@.take(old.added@.len() as int) == old.added@
            &&& new.added@.last().name@ == reply.configured_printer_name@
            &&& crate::ipp::opt_view(new.added@.last().destination_id) == crate::ipp::opt_view(reply.destination_id)
            &&& new.pending_operation == old.pending_operation && new.discovery == old.discovery
            &&& r is RediscoverPrinters
        },
        PrinterConfigurationState::ManualActionRequired => continued_in_application(old, new, reply.web_interface_uri, r),
        PrinterConfigurationState::UnknownOutcome | PrinterConfigurationState::Failed => {
            &&& same_except_view_error(old, new)
            &&& new.error == Some(DialogNotice::FailedToAddPrinter)
            &&& new.view == DialogView::Discovery
            &&& r is Nothing
        },
    }
}

/// What the end of a setup does: the pending operation is over, and the
/// reply, a request to finish in the application, or a failure decides
/// the rest.
pub open spec fn setup_finished(old: State, new: State, result: Result<ConfigurePrinterReply, SetupError>, r: Action) -> bool {
    let cleared = State { pending_operation: None, ..old };
    match result {
        Ok(reply) => configuration_applied(cleared, new, reply, r),
        Err(SetupError::ManualSetup { web_interface_uri }) => continued_in_application(
            State { error: None, ..cleared },
            new,
            web_interface_uri,
            r,
        ),
        Err(SetupError::Failed(why)) => {
            &&& same_except_view_error(cleared, new)
            &&& new.error == Some(DialogNotice::Failed(why))
            &&& new.view == DialogView::Discovery
            &&& r is Nothing
        },
    }
}

/// The Add Printer dialog.
pub struct State {
    pub window_id: Option<u64>,
    /// Search query.
    pub search: String,
    /// What the person is told, if anything.
    pub error: Option<DialogNotice>,
    /// The printers already configured.
    pub configured_printers: Vec<PrinterEntry>,
    /// The active view.
    pub view: DialogView,
    pub discovery: Option<AddPrinterDiscoveryReply>,
    pub manual_setup_applications: Vec<ManualSetupPrinterApplication>,
    pub pending_operation: Option<String>,
    pub added: Vec<AddedPrinter>,
}

impl State {
    pub open spec fn discovery_of(&self) -> Option<AddPrinterDiscoveryReply> {
        self.discovery
    }

    pub open spec fn pending_of(&self) -> Option<String> {
        self.pending_operation
    }

    pub open spec fn added_of(&self) -> Seq<AddedPrinter> {
        self.added@
    }

    pub open spec fn window_of(&self) -> Option<u64> {
        self.window_id
    }

    /// Whether discovery still runs, as far as the dialog knows.
    pub open spec fn searching(&self) -> bool {
        self.error is None && (self.discovery_of() matches Some(d) ==> d.state is Searching)
    }

    /// A dialog showing discovery, with the printers already configured.
    pub fn new(configured_printers: Vec<PrinterEntry>) -> (r: Self)
        ensures
            r.view == DialogView::Discovery,
            r.error is None,
            r.search@.len() == 0,
            r.configured_printers == configured_printers,
            r.discovery_of() is None,
            r.pending_of() is None,
            r.added_of().len() == 0,
            r.window_of() is None,
    {
        State {
            window_id: None,
            search: String::new(),
            error: None,
            configured_printers,
            view: DialogView::Discovery,
            discovery: None,
            manual_setup_applications: Vec::new(),
            pending_operation: None,
            added: Vec::new(),
        }
    }

    /// Records the dialog's window.
    pub fn set_window_id(&mut self, window_id: u64)
        ensures
            final(self).window_of() == Some(window_id),
            final(self).view == old(self).view,
    {
        self.window_id = Some(window_id);
    }

    /// The dialog's window, once known.
    pub fn window_id(&self) -> (r: Option<u64>)
        ensures
            r == self.window_of(),
    {
        self.window_id
    }

    /// Whether discovery still runs, as far as the dialog knows.
    pub fn is_searching(&self) -> (r: bool)
        ensures
            r == self.searching(),
    {
        self.error.is_none() && match &self.discovery {
            Some(d) => d.state == AddPrinterDiscoveryState::Searching,
            None => true,
        }
    }

    /// The round a selection may be configured in.
    pub fn selectable_generation(&self) -> (r: Option<u64>)
        ensures
            r == selectable_generation(self.discovery_of()),
    {
        match &self.discovery {
            Some(d) => if d.cached { None } else { Some(d.generation) },
            None => None,
        }
    }

    /// Whether every application of the round has answered.
    pub fn every_application_answered(&self) -> (r: bool)
        ensures
            r == (self.discovery_of() matches Some(d) && d.completed_printer_application_scans >= d.total_printer_application_scans),
    {
        match &self.discovery {
            Some(d) => d.completed_printer_application_scans >= d.total_printer_application_scans,
            None => false,
        }
    }

    /// The printers already added in this dialog.
    pub fn added(&self) -> (r: &Vec<AddedPrinter>)
        ensures
            r@ == self.added_of(),
    {
        &self.added
    }

    /// The applications that can be set up through their own pages.
    pub fn manual_setup_applications(&self) -> (r: &Vec<ManualSetupPrinterApplication>)
        ensures
            r@ == self.manual_setup_applications@,
    {
        &self.manual_setup_applications
    }

    /// The round the dialog shows, once loaded.
    pub fn discovery(&self) -> (r: &Option<AddPrinterDiscoveryReply>)
        ensures
            *r == self.discovery_of(),
    {
        &self.discovery
    }

    fn apply_load(&mut self, result: Result<Load, String>)
        ensures
            load_applied(*old(self), *final(self), result),
    {
        match result {
            Ok(load) => {
                self.error = None;
                self.discovery = Some(load.discovery);
                self.manual_setup_applications = load.manual_setup_applications;
            },
            Err(_) => {
                self.error = Some(DialogNotice::FailedToLoadPrinters);
            },
        }
    }

    fn open_manual_setup(&mut self)
        ensures
            manual_opened(*old(self), *final(self)),
    {
        if is_adding(&self.view) {
            return;
        }
        self.error = None;
        self.view = DialogView::ManualSetup;
    }

    fn start_setup(&mut self, printer_id: String, candidate_id: String) -> (r: Action)
        ensures
            setup_started(*old(self), *final(self), printer_id@, candidate_id@, r),
    {
        if is_adding(&self.view) {
            return Action::Nothing;
        }
        let generation = match self.selectable_generation() {
            Some(g) => g,
            None => {
                self.view = DialogView::Discovery;
                return Action::StartDiscovery;
            },
        };
        self.error = None;
        self.view = DialogView::Adding { printer_id: string_of(chars_of(printer_id.as_str())) };
        Action::Configure(ConfigureDiscoveredPrinterRequest {
            discovery_generation: generation,
            physical_printer_id: printer_id,
            candidate_id,
            requested_display_name: None,
        })
    }

    fn select_discovered_printer(&mut self, printer_id: String) -> (r: Action)
        ensures
            printer_selected(*old(self), *final(self), printer_id@, r),
    {
        if self.is_searching() || is_adding(&self.view) {
            return Action::Nothing;
        }
        let i = match self.physical_printer(printer_id.as_str()) {
            Some(i) => i,
            None => {
                self.error = Some(DialogNotice::NoPrintersFound);
                return Action::Nothing;
            },
        };
        let ids = match &self.discovery {
            Some(d) => selectable_candidate_ids(&d.physical_printers[i]),
            None => Vec::new(),
        };
        if ids.len() == 0 {
            self.open_manual_setup();
            Action::Nothing
        } else if ids.len() == 1 {
            let candidate_id = string_of(chars_of(ids[0].as_str()));
            proof {
                assert(ids@.map_values(|s: String| s@)[0] == ids@[0]@);
            }
            self.start_setup(printer_id, candidate_id)
        } else {
            self.error = None;
            self.view = DialogView::SelectApplication { printer_id };
            Action::Nothing
        }
    }

    fn select_printer_application(&mut self, candidate_id: String) -> (r: Action)
        ensures
            application_selected(*old(self), *final(self), candidate_id@, r),
    {
        let printer_id = match &self.view {
            DialogView::SelectApplication { printer_id } => string_of(chars_of(printer_id.as_str())),
            _ => {
                return Action::Nothing;
            },
        };
        let offered = match self.physical_printer(printer_id.as_str()) {
            Some(i) => match &self.discovery {
                Some(d) => {
                    let ids = selectable_candidate_ids(&d.physical_printers[i]);
                    let wanted = chars_of(candidate_id.as_str());
                    let mut found = false;
                    let mut k: usize = 0;
                    while k < ids.len()
                        invariant
                            k <= ids@.len(),
                            wanted@ == candidate_id@,
                            found == exists|x: int| 0 <= x < k && (#[trigger] ids@[x])@ == candidate_id@,
                        decreases ids.len() - k,
                    {
                        if eq_vec(&chars_of(ids[k].as_str()), &wanted) {
                            found = true;
                        }
                        k += 1;
                    }
                    proof {
                        let v = ids@.map_values(|s: String| s@);
                        if found {
                            let x = choose|x: int| 0 <= x < ids@.len() && (#[trigger] ids@[x])@ == candidate_id@;
                            assert(v[x] == candidate_id@);
                        } else {
                            assert forall|x: int| 0 <= x < v.len() implies v[x] != candidate_id@ by {
                                assert(v[x] == ids@[x]@);
                            }
                        }
                    }
                    found
                },
                None => false,
            },
            None => false,
        };
        if offered {
            self.start_setup(printer_id, candidate_id)
        } else {
            Action::Nothing
        }
    }

    fn continue_in_printer_application(&mut self, web_interface_uri: Option<String>) -> (r: Action)
        ensures
            continued_in_application(*old(self), *final(self), web_interface_uri, r),
    {
        self.view = DialogView::ManualSetup;
        match web_interface_uri {
            Some(page) => Action::OpenWebPage(page),
            None => {
                self.error = Some(DialogNotice::WebInterfaceUnavailable);
                Action::Nothing
            },
        }
    }

    fn apply_configuration(&mut self, reply: ConfigurePrinterReply) -> (r: Action)
        ensures
            configuration_applied(*old(self), *final(self), reply, r),
    {
        match reply.state {
            PrinterConfigurationState::Creating => {
                self.pending_operation = Some(reply.operation_id);
                Action::RefreshPrinters
            },
            PrinterConfigurationState::AwaitingAdvertisement
            | PrinterConfigurationState::Reconciled
            | PrinterConfigurationState::AlreadyConfigured => {
                self.error = None;
                let ghost before = self.added@;
                self.added.push(AddedPrinter { name: reply.configured_printer_name, destination_id: reply.destination_id });
                proof {
                    assert(self.added@.take(before.len() as int) =~= before);
                }
                self.view = DialogView::Added;
                Action::RediscoverPrinters
            },
            PrinterConfigurationState::ManualActionRequired => self.continue_in_printer_application(reply.web_interface_uri),
            PrinterConfigurationState::UnknownOutcome | PrinterConfigurationState::Failed => {
                self.error = Some(DialogNotice::FailedToAddPrinter);
                self.view = DialogView::Discovery;
                Action::Nothing
            },
        }
    }

    fn finish_printer_setup(&mut self, result: Result<ConfigurePrinterReply, SetupError>) -> (r: Action)
        ensures
            setup_finished(*old(self), *final(self), result, r),
    {
        self.pending_operation = None;
        match result {
            Ok(reply) => self.apply_configuration(reply),
            Err(SetupError::ManualSetup { web_interface_uri }) => {
                self.error = None;
                self.continue_in_printer_application(web_interface_uri)
            },
            Err(SetupError::Failed(why)) => {
                self.error = Some(DialogNotice::Failed(why));
                self.view = DialogView::Discovery;
                Action::Nothing
            },
        }
    }

    /// Handles a message, and says what the host has to do next.
    pub fn update(&mut self, message: Message) -> (r: Action)
        ensures
            match message {
                Message::Close => *final(self) == *old(self) && r is Close,
                Message::DragWindow => *final(self) == *old(self) && match old(self).window_id {
                    Some(w) => r == Action::DragWindow(w),
                    None => r is Nothing,
                },
                Message::ToggleMaximizeWindow => *final(self) == *old(self) && match old(self).window_id {
                    Some(w) => r == Action::ToggleMaximizeWindow(w),
                    None => r is Nothing,
                },
                Message::Search(search) => *final(self) == State { search, ..*old(self) } && r is Nothing,
                Message::Loaded(result) => load_applied(*old(self), *final(self), result) && r is Nothing,
                Message::ConfigurationChanged => *final(self) == *old(self) && match old(self).pending_operation {
                    Some(op) => r matches Action::PollConfiguration(o) && o@ == op@,
                    None => r is Nothing,
                },
                Message::OpenManualSetup => manual_opened(*old(self), *final(self)) && r is Nothing,
                Message::SelectDiscoveredPrinter(printer_id) => printer_selected(*old(self), *final(self), printer_id@, r),
                Message::SelectPrinterApplication(candidate_id) => application_selected(
                    *old(self),
                    *final(self),
                    candidate_id@,
                    r,
                ),
                Message::OpenPrinterWebPage(page) => *final(self) == *old(self) && r == Action::OpenWebPage(page),
                Message::PrinterSetupFinished(result) => setup_finished(*old(self), *final(self), result, r),
                Message::WebPageOpened(result) => r is Nothing && match result {
                    Ok(()) => *final(self) == *old(self),
                    Err((address, _)) => *final(self) == State { error: Some(DialogNotice::OpenPageManually(address)), ..*old(self) },
                },
            },
    {
        match message {
            Message::Close => Action::Close,
            Message::DragWindow => match self.window_id {
                Some(w) => Action::DragWindow(w),
                None => Action::Nothing,
            },
            Message::ToggleMaximizeWindow => match self.window_id {
                Some(w) => Action::ToggleMaximizeWindow(w),
                None => Action::Nothing,
            },
            Message::Search(search) => {
                self.search = search;
                Action::Nothing
            },
            Message::Loaded(result) => {
                self.apply_load(result);
                Action::Nothing
            },
            Message::ConfigurationChanged => match &self.pending_operation {
                Some(op) => Action::PollConfiguration(string_of(chars_of(op.as_str()))),
                None => Action::Nothing,
            },
            Message::OpenManualSetup => {
                self.open_manual_setup();
                Action::Nothing
            },
            Message::SelectDiscoveredPrinter(printer_id) => self.select_discovered_printer(printer_id),
            Message::SelectPrinterApplication(candidate_id) => self.select_printer_application(candidate_id),
            Message::OpenPrinterWebPage(page) => Action::OpenWebPage(page),
            Message::PrinterSetupFinished(result) => self.finish_printer_setup(result),
            Message::WebPageOpened(result) => {
                match result {
                    Ok(()) => {},
                    Err((address, _)) => {
                        self.error = Some(DialogNotice::OpenPageManually(address));
                    },
                }
                Action::Nothing
            },
        }
    }

    fn physical_printer(&self, printer_id: &str) -> (r: Option<usize>)
        ensures
            match r {
                Some(i) => printer_index(rows_of(self.discovery_of()), printer_id@, 0) == Some(i as int)
                    && i < rows_of(self.discovery_of()).len(),
                None => printer_index(rows_of(self.discovery_of()), printer_id@, 0) is None,
            },
    {
        let ghost rows = rows_of(self.discovery);
        match &self.discovery {
            Some(d) => {
                let wanted = chars_of(printer_id);
                let mut i: usize = 0;
                while i < d.physical_printers.len()
                    invariant
                        i <= d.physical_printers@.len(),
                        rows == d.physical_printers@,
                        rows == rows_of(self.discovery_of()),
                        wanted@ == printer_id@,
                        printer_index(rows, printer_id@, 0) == printer_index(rows, printer_id@, i as int),
                    decreases d.physical_printers.len() - i,
                {
                    if eq_vec(&chars_of(d.physical_printers[i].id.as_str()), &wanted) {
                        proof {
                            assert(rows[i as int].id@ == printer_id@);
                        }
                        return Some(i);
                    }
                    i += 1;
                }
                None
            },
            None => None,
        }
    }
}

/// What `str::to_lowercase` makes of a text: Unicode lower case.
pub uninterp spec fn lowercased(s: Seq<char>) -> Seq<char>;

/// Calls `str::to_lowercase`. The result is named, not spelled out:
/// Unicode case mapping takes tables to state.
#[verifier::external_body]
fn to_lowercase(s: &str) -> (r: String)
    ensures
        r@ == lowercased(s@),
{
    s.to_lowercase()
}

pub open spec fn contains_text(s: Seq<char>, p: Seq<char>) -> bool {
    crate::text::first_occurrence(s, p) is Some
}

fn contains_lowercased(value: &str, search: &Vec<char>) -> (r: bool)
    ensures
        r == contains_text(lowercased(value@), search@),
{
    let lower = to_lowercase(value);
    crate::text::find(&chars_of(lower.as_str()), search).is_some()
}

/// Whether a row matches a search already in lower case: any row matches
/// an empty search; otherwise its name, its make and model, or the name of
/// one of its applications must hold the search, ignoring case.
pub open spec fn matches_search(printer: DiscoveredPhysicalPrinter, search: Seq<char>) -> bool {
    ||| search.len() == 0
    ||| contains_text(lowercased(printer.display_name@), search)
    ||| (printer.make_and_model matches Some(m) && contains_text(lowercased(m@), search))
    ||| exists|q: int| 0 <= q < printer.candidates@.len()
        && contains_text(lowercased((#[trigger] printer.candidates@[q]).printer_application_name@), search)
}

/// Whether a row matches a search already in lower case.
pub fn printer_matches_search(printer: &DiscoveredPhysicalPrinter, search: &str) -> (r: bool)
    ensures
        r == matches_search(*printer, search@),
{
    let wanted = chars_of(search);
    if wanted.len() == 0 {
        return true;
    }
    if contains_lowercased(printer.display_name.as_str(), &wanted) {
        return true;
    }
    match &printer.make_and_model {
        Some(m) => {
            if contains_lowercased(m.as_str(), &wanted) {
                return true;
            }
        },
        None => {},
    }
    let mut q: usize = 0;
    while q < printer.candidates.len()
        invariant
            q <= printer.candidates@.len(),
            wanted@ == search@,
            forall|x: int| 0 <= x < q ==> !contains_text(
                lowercased((#[trigger] printer.candidates@[x]).printer_application_name@),
                search@,
            ),
        decreases printer.candidates.len() - q,
    {
        if contains_lowercased(printer.candidates[q].printer_application_name.as_str(), &wanted) {
            return true;
        }
        q += 1;
    }
    false
}

/// The rows the dialog lists for a search: printers not set up yet that
/// match the search, trimmed and in lower case, in order.
pub fn visible_printers(discovery: &Option<AddPrinterDiscoveryReply>, search: &str) -> (r: Vec<usize>)
    ensures
        forall|k: int| 0 <= k < r@.len() ==> (#[trigger] r@[k]) < rows_of(*discovery).len(),
        forall|a: int, b: int| 0 <= a < b < r@.len() ==> #[trigger] r@[a] < #[trigger] r@[b],
        forall|i: int| 0 <= i < rows_of(*discovery).len() ==> (r@.contains(i as usize) <==> !is_configured_spec(
            #[trigger] rows_of(*discovery)[i],
        ) && matches_search(rows_of(*discovery)[i], lowercased(crate::text::trim(search@)))),
{
    let mut shown: Vec<usize> = Vec::new();
    match discovery {
        Some(d) => {
            let wanted = to_lowercase(crate::text::trim_str(search).as_str());
            let mut i: usize = 0;
            while i < d.physical_printers.len()
                invariant
                    i <= d.physical_printers@.len(),
                    rows_of(*discovery) == d.physical_printers@,
                    wanted@ == lowercased(crate::text::trim(search@)),
                    forall|k: int| 0 <= k < shown@.len() ==> (#[trigger] shown@[k]) < i,
                    forall|a: int, b: int| 0 <= a < b < shown@.len() ==> #[trigger] shown@[a] < #[trigger] shown@[b],
                    forall|x: int| 0 <= x < i ==> (shown@.contains(x as usize) <==> !is_configured_spec(
                        #[trigger] d.physical_printers@[x],
                    ) && matches_search(d.physical_printers@[x], wanted@)),
                decreases d.physical_printers.len() - i,
            {
                let keep = !is_configured(&d.physical_printers[i]) && printer_matches_search(
                    &d.physical_printers[i],
                    wanted.as_str(),
                );
                let ghost before = shown@;
                if keep {
                    shown.push(i);
                }
                proof {
                    assert forall|x: int| 0 <= x < i + 1 implies (shown@.contains(x as usize) <==> !is_configured_spec(
                        #[trigger] d.physical_printers@[x],
                    ) && matches_search(d.physical_printers@[x], wanted@)) by {
                        if x < i {
                            if shown@.contains(x as usize) && !before.contains(x as usize) {
                                assert(shown@.last() == i);
                            }
                            if before.contains(x as usize) {
                                let k = choose|k: int| 0 <= k < before.len() && before[k] == x as usize;
                                assert(shown@[k] == x as usize);
                            }
                        } else {
                            if keep {
                                assert(shown@[shown@.len() - 1] == i);
                            } else {
                                assert(shown@ == before);
                            }
                        }
                    }
                }
                i += 1;
            }
        },
        None => {},
    }
    shown
}

/// How a row describes who can set it up.
#[derive(Clone, Debug, PartialEq, Eq)]
pub enum CandidateSummary {
    /// The applications that can set it up, joined with commas.
    Names(String),
    /// Some application has not answered yet.
    Searching,
    /// No application offered it.
    NoCompatibleApplications,
    /// This many applications saw it without a driver.
    SeenWithoutDriver(usize),
}

pub open spec fn selectable_names(c: Seq<crate::round::PrinterApplicationCandidateSummary>, n: int) -> Seq<char>
    decreases n,
{
    if n <= 0 || n > c.len() {
        Seq::empty()
    } else {
        let before = selectable_names(c, n - 1);
        if is_selectable(c[n - 1].state) {
            if before.len() == 0 && !any_selectable(c, n - 1) {
                c[n - 1].printer_application_name@
            } else {
                before + ", "@ + c[n - 1].printer_application_name@
            }
        } else {
            before
        }
    }
}

pub open spec fn any_selectable(c: Seq<crate::round::PrinterApplicationCandidateSummary>, n: int) -> bool {
    exists|q: int| 0 <= q < n && q < c.len() && is_selectable((#[trigger] c[q]).state)
}

proof fn lemma_no_names(c: Seq<crate::round::PrinterApplicationCandidateSummary>, n: int)
    requires
        0 <= n <= c.len(),
        !any_selectable(c, n),
    ensures
        selectable_names(c, n) == Seq::<char>::empty(),
    decreases n,
{
    if n > 0 {
        assert(!is_selectable(c[n - 1].state)) by {
            if is_selectable(c[n - 1].state) {
                assert(any_selectable(c, n));
            }
        }
        assert(!any_selectable(c, n - 1)) by {
            if any_selectable(c, n - 1) {
                let x = choose|x: int| 0 <= x < n - 1 && x < c.len() && is_selectable((#[trigger] c[x]).state);
                assert(any_selectable(c, n));
            }
        }
        lemma_no_names(c, n - 1);
    }
}

/// How a row describes who can set it up: the names of the applications
/// that can; while some application has not answered, that the search
/// goes on; otherwise that none offered it, or how many saw it without a
/// driver.
pub fn candidate_summary(printer: &DiscoveredPhysicalPrinter, every_answer_in: bool) -> (r: CandidateSummary)
    ensures
        ({
            let c = printer.candidates@;
            if any_selectable(c, c.len() as int) {
                r matches CandidateSummary::Names(n) && n@ == selectable_names(c, c.len() as int)
            } else if !every_answer_in {
                r is Searching
            } else if c.len() == 0 {
                r is NoCompatibleApplications
            } else {
                r == CandidateSummary::SeenWithoutDriver(c.len() as usize)
            }
        }),
{
    let ghost c = printer.candidates@;
    let mut names: Vec<char> = Vec::new();
    let mut any = false;
    let mut q: usize = 0;
    while q < printer.candidates.len()
        invariant
            q <= c.len(),
            c == printer.candidates@,
            names@ == selectable_names(c, q as int),
            any == any_selectable(c, q as int),
        decreases printer.candidates.len() - q,
    {
        if printer.candidates[q].state == PaCandidateState::Ready {
            if any {
                crate::text::push_str(&mut names, ", ");
            }
            crate::text::push_str(&mut names, printer.candidates[q].printer_application_name.as_str());
            proof {
                if !any {
                    lemma_no_names(c, q as int);
                    assert(names@ =~= c[q as int].printer_application_name@);
                } else {
                    assert(names@ =~= selectable_names(c, q as int) + ", "@ + c[q as int].printer_application_name@);
                }
                assert(is_selectable(c[q as int].state));
                assert(any_selectable(c, q + 1));
            }
            any = true;
        } else {
            proof {
                assert(any_selectable(c, q + 1) == any_selectable(c, q as int)) by {
                    if any_selectable(c, q + 1) {
                        let x = choose|x: int| 0 <= x < q + 1 && x < c.len() && is_selectable((#[trigger] c[x]).state);
                        assert(x < q);
                    }
                }
            }
        }
        q += 1;
    }
    if any {
        return CandidateSummary::Names(string_of(names));
    }
    if !every_answer_in {
        return CandidateSummary::Searching;
    }
    if printer.candidates.len() == 0 {
        CandidateSummary::NoCompatibleApplications
    } else {
        CandidateSummary::SeenWithoutDriver(printer.candidates.len())
    }
}

} // verus!

