//! The print queue page: what it holds, and what each message does to it
//! and asks for in return. Answers for a printer no longer shown are
//! ignored, and one operation at a time runs against the queue.

use vstd::prelude::*;
use crate::entry::{entries_view, PrinterEntry, PrinterEntryView};
use crate::queue::{operation_available, JobId, JobInfo, JobOperation};
use crate::queue_selection::{
    active_job_count, active_jobs, clear_selection, clicked, is_selected, open_job_menu, queued, retain_queued,
    select_job, JobSelection,
};
use crate::text::{chars_of, str_eq, string_of};

verus! {

/// The open menu of the queue.
pub enum QueueMenu {
    /// The menu of the selected jobs.
    SelectedJobs,
    /// The menu of the whole queue.
    Whole,
    /// The printers these jobs can be moved to.
    MoveToPrinter(Vec<JobId>),
}

pub enum QueueMenuView {
    SelectedJobs,
    Whole,
    MoveToPrinter(Seq<JobId>),
}

impl View for QueueMenu {
    type V = QueueMenuView;

    open spec fn view(&self) -> QueueMenuView {
        match self {
            QueueMenu::SelectedJobs => QueueMenuView::SelectedJobs,
            QueueMenu::Whole => QueueMenuView::Whole,
            QueueMenu::MoveToPrinter(ids) => QueueMenuView::MoveToPrinter(ids@),
        }
    }
}

/// What the queue page holds.
pub struct QueuePage {
    /// The printer whose queue is shown.
    pub printer: Option<PrinterEntry>,
    /// The printers jobs can be moved to.
    pub available_printers: Vec<PrinterEntry>,
    pub jobs: Vec<JobInfo>,
    /// Whether a read of the jobs is under way.
    pub loading: bool,
    /// Whether the last read of the jobs failed.
    pub load_failed: bool,
    /// Why the last operation failed.
    pub action_error: Option<String>,
    pub selection: JobSelection,
    /// Whether ended jobs are shown too.
    pub show_completed: bool,
    /// Whether Shift and Ctrl are held.
    pub shift: bool,
    pub control: bool,
    /// Whether an operation is under way.
    pub operation_in_flight: bool,
    pub menu: Option<QueueMenu>,
}

pub struct QueuePageView {
    pub printer: Option<PrinterEntryView>,
    pub available_printers: Seq<PrinterEntryView>,
    pub jobs: Seq<JobInfo>,
    pub loading: bool,
    pub load_failed: bool,
    pub action_error: Option<Seq<char>>,
    pub selected: Seq<JobId>,
    pub anchor: Option<JobId>,
    pub show_completed: bool,
    pub shift: bool,
    pub control: bool,
    pub operation_in_flight: bool,
    pub menu: Option<QueueMenuView>,
}

impl View for QueuePage {
    type V = QueuePageView;

    open spec fn view(&self) -> QueuePageView {
        QueuePageView {
            printer: match self.printer {
                Some(p) => Some(p@),
                None => None,
            },
            available_printers: entries_view(self.available_printers@),
            jobs: self.jobs@,
            loading: self.loading,
            load_failed: self.load_failed,
            action_error: match self.action_error {
                Some(w) => Some(w@),
                None => None,
            },
            selected: self.selection.selected@,
            anchor: self.selection.anchor,
            show_completed: self.show_completed,
            shift: self.shift,
            control: self.control,
            operation_in_flight: self.operation_in_flight,
            menu: match self.menu {
                Some(m) => Some(m@),
                None => None,
            },
        }
    }
}

/// A message the queue page handles.
pub enum QueueMessage {
    /// Shows a printer's queue.
    LoadPrinter { printer: PrinterEntry, available_printers: Vec<PrinterEntry> },
    /// A printer's jobs were read.
    JobsLoaded { printer_id: String, result: Result<Vec<JobInfo>, String> },
    /// A job was clicked, with the modifiers held.
    SelectJob(JobId),
    ClearSelection,
    /// The modifiers held changed.
    ModifiersChanged { shift: bool, control: bool },
    /// The menu was opened on a job.
    OpenJobMenu(JobId),
    /// The menu of the whole queue was opened.
    OpenWholeQueueMenu,
    /// The printers to move these jobs to were asked for.
    OpenMoveToPrinter(Vec<JobId>),
    CloseMenu,
    /// Moves jobs to another printer.
    MoveJobs { destination_id: String, job_ids: Vec<JobId> },
    /// Runs an operation on jobs.
    RunJobAction(JobOperation),
    /// An operation on a printer's jobs ended.
    JobActionFinished { printer_id: String, result: Result<(), String> },
    PrintTestPage,
    /// A test page was sent, or could not be.
    TestPageFinished { printer_id: String, result: Result<i32, String> },
    /// Reads the jobs again.
    Refresh,
    /// Shows or hides ended jobs.
    ToggleCompleted,
    /// Opens the printer's web page.
    OpenPrinterWebPage(String),
}

/// What the page asks for after a message.
pub enum QueueAction {
    Nothing,
    /// Read a printer's jobs: every job, or only those that have not ended.
    LoadJobs { printer_id: String, all: bool },
    /// Tell the printer list a printer's count of active jobs.
    ReportActiveJobs { printer_id: String, count: usize },
    /// Run an operation on a printer's jobs.
    RunOperation { printer_id: String, operation: JobOperation },
    /// Move jobs from one printer to another.
    MoveJobs { source_id: String, destination_id: String, job_ids: Vec<JobId> },
    /// Print a test page on a printer.
    PrintTestPage(String),
    /// Open a web page.
    OpenWebPage(String),
}

pub enum QueueActionView {
    Nothing,
    LoadJobs(Seq<char>, bool),
    ReportActiveJobs(Seq<char>, usize),
    RunOperation(Seq<char>, crate::queue::JobAction, Seq<JobId>),
    MoveJobs(Seq<char>, Seq<char>, Seq<JobId>),
    PrintTestPage(Seq<char>),
    OpenWebPage(Seq<char>),
}

impl View for QueueAction {
    type V = QueueActionView;

    open spec fn view(&self) -> QueueActionView {
        match self {
            QueueAction::Nothing => QueueActionView::Nothing,
            QueueAction::LoadJobs { printer_id, all } => QueueActionView::LoadJobs(printer_id@, *all),
            QueueAction::ReportActiveJobs { printer_id, count } => QueueActionView::ReportActiveJobs(printer_id@, *count),
            QueueAction::RunOperation { printer_id, operation } => QueueActionView::RunOperation(
                printer_id@,
                operation.action,
                operation.job_ids@,
            ),
            QueueAction::MoveJobs { source_id, destination_id, job_ids } => QueueActionView::MoveJobs(
                source_id@,
                destination_id@,
                job_ids@,
            ),
            QueueAction::PrintTestPage(p) => QueueActionView::PrintTestPage(p@),
            QueueAction::OpenWebPage(u) => QueueActionView::OpenWebPage(u@),
        }
    }
}

/// Whether the page shows the queue of the printer with identifier `id`.
pub open spec fn shows_queue(page: QueuePageView, id: Seq<char>) -> bool {
    page.printer matches Some(p) && p.id == id
}

/// Reading the shown printer's jobs again: every job when ended jobs are
/// shown, else only those that have not ended. Without a printer nothing
/// is read.
pub open spec fn jobs_reloaded(page: QueuePageView, after: QueuePageView, r: QueueActionView) -> bool {
    match page.printer {
        Some(p) => after == QueuePageView { loading: true, ..page } && r == QueueActionView::LoadJobs(p.id, page.show_completed),
        None => after == page && r == QueueActionView::Nothing,
    }
}

/// The page without a selection or an open menu.
pub open spec fn unselected(page: QueuePageView) -> QueuePageView {
    QueuePageView { selected: Seq::empty(), anchor: None, menu: None, ..page }
}

/// Whether the printer list offers a printer with identifier `id`.
pub open spec fn offers(printers: Seq<PrinterEntryView>, id: Seq<char>) -> bool {
    exists|k: int| 0 <= k < printers.len() && #[trigger] printers[k].id == id
}

/// What one message does to the queue page, and what it asks for.
pub open spec fn queue_step(before: QueuePage, message: QueueMessage, after: QueuePage, r: QueueActionView) -> bool {
    let b = before@;
    let a = after@;
    match message {
        QueueMessage::LoadPrinter { printer, available_printers } => {
            &&& a == QueuePageView {
                printer: Some(printer@),
                available_printers: entries_view(available_printers@),
                jobs: Seq::empty(),
                loading: true,
                load_failed: false,
                action_error: None,
                selected: Seq::empty(),
                anchor: None,
                show_completed: false,
                menu: None,
                ..b
            }
            &&& r == QueueActionView::LoadJobs(printer@.id, false)
        },
        QueueMessage::JobsLoaded { printer_id, result } => if !shows_queue(b, printer_id@) {
            a == b && r == QueueActionView::Nothing
        } else {
            match result {
                Err(_) => a == QueuePageView {
                    loading: false,
                    operation_in_flight: false,
                    load_failed: true,
                    ..b
                } && r == QueueActionView::Nothing,
                Ok(jobs) => {
                    &&& a == QueuePageView {
                        loading: false,
                        operation_in_flight: false,
                        load_failed: false,
                        jobs: jobs@,
                        selected: a.selected,
                        ..b
                    }
                    &&& forall|x: JobId| is_selected(after.selection, x) <==> (is_selected(before.selection, x) && queued(jobs@, x))
                    &&& r == QueueActionView::ReportActiveJobs(
                        printer_id@,
                        if b.show_completed {
                            active_jobs(jobs@) as usize
                        } else {
                            jobs@.len() as usize
                        },
                    )
                },
            }
        },
        QueueMessage::SelectJob(job) => {
            &&& a == QueuePageView { selected: a.selected, anchor: a.anchor, ..b }
            &&& clicked(before.selection, b.jobs, job, b.shift, b.control, after.selection)
            &&& r == QueueActionView::Nothing
        },
        QueueMessage::ClearSelection => a == unselected(b) && r == QueueActionView::Nothing,
        QueueMessage::ModifiersChanged { shift, control } => a == QueuePageView { shift, control, ..b } && r
            == QueueActionView::Nothing,
        QueueMessage::OpenJobMenu(job) => {
            &&& a == QueuePageView {
                selected: a.selected,
                anchor: a.anchor,
                menu: Some(QueueMenuView::SelectedJobs),
                ..b
            }
            &&& is_selected(before.selection, job) ==> a.selected == b.selected && a.anchor == b.anchor
            &&& !is_selected(before.selection, job) ==> (forall|x: JobId| is_selected(after.selection, x) <==> x == job)
                && a.anchor == Some(job)
            &&& r == QueueActionView::Nothing
        },
        QueueMessage::OpenWholeQueueMenu => a == QueuePageView {
            menu: Some(QueueMenuView::Whole),
            ..unselected(b)
        } && r == QueueActionView::Nothing,
        QueueMessage::OpenMoveToPrinter(job_ids) => {
            &&& a == if job_ids@.len() > 0 {
                QueuePageView { menu: Some(QueueMenuView::MoveToPrinter(job_ids@)), ..b }
            } else {
                b
            }
            &&& r == QueueActionView::Nothing
        },
        QueueMessage::CloseMenu => a == QueuePageView { menu: None, ..b } && r == QueueActionView::Nothing,
        QueueMessage::MoveJobs { destination_id, job_ids } => {
            let closed = QueuePageView { menu: None, ..b };
            match b.printer {
                Some(p) => if !b.operation_in_flight && job_ids@.len() > 0 && p.id != destination_id@ && offers(
                    b.available_printers,
                    destination_id@,
                ) {
                    &&& a == QueuePageView { operation_in_flight: true, ..closed }
                    &&& r == QueueActionView::MoveJobs(p.id, destination_id@, job_ids@)
                } else {
                    a == closed && r == QueueActionView::Nothing
                },
                None => a == closed && r == QueueActionView::Nothing,
            }
        },
        QueueMessage::RunJobAction(operation) => {
            let closed = QueuePageView { menu: None, ..b };
            match b.printer {
                Some(p) => if !b.operation_in_flight && operation_available(operation.action, operation.job_ids@, b.jobs) {
                    &&& a == QueuePageView { operation_in_flight: true, ..closed }
                    &&& r == QueueActionView::RunOperation(p.id, operation.action, operation.job_ids@)
                } else {
                    a == closed && r == QueueActionView::Nothing
                },
                None => a == closed && r == QueueActionView::Nothing,
            }
        },
        QueueMessage::JobActionFinished { printer_id, result } => if !shows_queue(b, printer_id@) {
            a == b && r == QueueActionView::Nothing
        } else {
            jobs_reloaded(
                QueuePageView {
                    operation_in_flight: false,
                    action_error: match result {
                        Ok(_) => None,
                        Err(why) => Some(why@),
                    },
                    ..b
                },
                a,
                r,
            )
        },
        QueueMessage::PrintTestPage => {
            let closed = QueuePageView { menu: None, ..b };
            match b.printer {
                Some(p) => if !b.operation_in_flight {
                    a == QueuePageView { operation_in_flight: true, ..closed } && r == QueueActionView::PrintTestPage(p.id)
                } else {
                    a == closed && r == QueueActionView::Nothing
                },
                None => a == closed && r == QueueActionView::Nothing,
            }
        },
        QueueMessage::TestPageFinished { printer_id, result } => if !shows_queue(b, printer_id@) {
            a == b && r == QueueActionView::Nothing
        } else {
            match result {
                Ok(_) => jobs_reloaded(QueuePageView { operation_in_flight: false, action_error: None, ..b }, a, r),
                Err(why) => a == QueuePageView { operation_in_flight: false, action_error: Some(why@), ..b } && r
                    == QueueActionView::Nothing,
            }
        },
        QueueMessage::Refresh => jobs_reloaded(b, a, r),
        QueueMessage::ToggleCompleted => jobs_reloaded(
            QueuePageView { show_completed: !b.show_completed, ..unselected(b) },
            a,
            r,
        ),
        QueueMessage::OpenPrinterWebPage(url) => a == QueuePageView { menu: None, ..b } && r
            == QueueActionView::OpenWebPage(url@),
    }
}

fn copy_text(s: &str) -> (r: String)
    ensures
        r@ == s@,
{
    string_of(chars_of(s))
}

fn shows_queue_exec(page: &QueuePage, id: &str) -> (r: bool)
    ensures
        r == shows_queue(page@, id@),
{
    match &page.printer {
        Some(p) => str_eq(p.id.as_str(), id),
        None => false,
    }
}

fn offers_exec(printers: &Vec<PrinterEntry>, id: &str) -> (r: bool)
    ensures
        r == offers(entries_view(printers@), id@),
{
    let mut i: usize = 0;
    while i < printers.len()
        invariant
            i <= printers@.len(),
            forall|k: int| 0 <= k < i ==> (#[trigger] entries_view(printers@)[k]).id != id@,
        decreases printers.len() - i,
    {
        if str_eq(printers[i].id.as_str(), id) {
            proof {
                assert(entries_view(printers@)[i as int].id == id@);
            }
            return true;
        }
        i += 1;
    }
    false
}

/// Reads the shown printer's jobs again.
fn reload_jobs(page: &mut QueuePage) -> (r: QueueAction)
    ensures
        jobs_reloaded(old(page)@, final(page)@, r@),
{
    let printer_id = match &page.printer {
        Some(p) => copy_text(p.id.as_str()),
        None => return QueueAction::Nothing,
    };
    page.loading = true;
    QueueAction::LoadJobs { printer_id, all: page.show_completed }
}

fn unselect(page: &mut QueuePage)
    ensures
        final(page)@ == unselected(old(page)@),
{
    clear_selection(&mut page.selection);
    page.menu = None;
    proof {
        assert(page.selection.selected@ =~= Seq::<JobId>::empty());
    }
}

/// Handles one message: changes the page as [`queue_step`] says and
/// returns what to ask for.
pub fn update(page: &mut QueuePage, message: QueueMessage) -> (r: QueueAction)
    ensures
        queue_step(*old(page), message, *final(page), r@),
{
    match message {
        QueueMessage::LoadPrinter { printer, available_printers } => {
            let printer_id = copy_text(printer.id.as_str());
            page.printer = Some(printer);
            page.available_printers = available_printers;
            page.jobs = Vec::new();
            unselect(page);
            page.load_failed = false;
            page.action_error = None;
            page.show_completed = false;
            page.loading = true;
            QueueAction::LoadJobs { printer_id, all: false }
        },
        QueueMessage::JobsLoaded { printer_id, result } => {
            if !shows_queue_exec(page, printer_id.as_str()) {
                return QueueAction::Nothing;
            }
            page.loading = false;
            page.operation_in_flight = false;
            match result {
                Err(_) => {
                    page.load_failed = true;
                    QueueAction::Nothing
                },
                Ok(jobs) => {
                    let count = active_job_count(&jobs, page.show_completed);
                    retain_queued(&mut page.selection, &jobs);
                    page.jobs = jobs;
                    page.load_failed = false;
                    QueueAction::ReportActiveJobs { printer_id, count }
                },
            }
        },
        QueueMessage::SelectJob(job) => {
            select_job(&mut page.selection, &page.jobs, job, page.shift, page.control);
            QueueAction::Nothing
        },
        QueueMessage::ClearSelection => {
            unselect(page);
            QueueAction::Nothing
        },
        QueueMessage::ModifiersChanged { shift, control } => {
            page.shift = shift;
            page.control = control;
            QueueAction::Nothing
        },
        QueueMessage::OpenJobMenu(job) => {
            open_job_menu(&mut page.selection, job);
            page.menu = Some(QueueMenu::SelectedJobs);
            QueueAction::Nothing
        },
        QueueMessage::OpenWholeQueueMenu => {
            unselect(page);
            page.menu = Some(QueueMenu::Whole);
            QueueAction::Nothing
        },
        QueueMessage::OpenMoveToPrinter(job_ids) => {
            if job_ids.len() > 0 {
                page.menu = Some(QueueMenu::MoveToPrinter(job_ids));
            }
            QueueAction::Nothing
        },
        QueueMessage::CloseMenu => {
            page.menu = None;
            QueueAction::Nothing
        },
        QueueMessage::MoveJobs { destination_id, job_ids } => {
            page.menu = None;
            if page.operation_in_flight || job_ids.len() == 0 {
                return QueueAction::Nothing;
            }
            let source_id = match &page.printer {
                Some(p) => copy_text(p.id.as_str()),
                None => return QueueAction::Nothing,
            };
            if str_eq(source_id.as_str(), destination_id.as_str()) || !offers_exec(
                &page.available_printers,
                destination_id.as_str(),
            ) {
                return QueueAction::Nothing;
            }
            page.operation_in_flight = true;
            QueueAction::MoveJobs { source_id, destination_id, job_ids }
        },
        QueueMessage::RunJobAction(operation) => {
            page.menu = None;
            if page.operation_in_flight || !operation.is_available_for(&page.jobs) {
                return QueueAction::Nothing;
            }
            let printer_id = match &page.printer {
                Some(p) => copy_text(p.id.as_str()),
                None => return QueueAction::Nothing,
            };
            page.operation_in_flight = true;
            QueueAction::RunOperation { printer_id, operation }
        },
        QueueMessage::JobActionFinished { printer_id, result } => {
            if !shows_queue_exec(page, printer_id.as_str()) {
                return QueueAction::Nothing;
            }
            page.operation_in_flight = false;
            page.action_error = match result {
                Ok(()) => None,
                Err(why) => Some(why),
            };
            reload_jobs(page)
        },
        QueueMessage::PrintTestPage => {
            page.menu = None;
            if page.operation_in_flight {
                return QueueAction::Nothing;
            }
            let printer_id = match &page.printer {
                Some(p) => copy_text(p.id.as_str()),
                None => return QueueAction::Nothing,
            };
            page.operation_in_flight = true;
            QueueAction::PrintTestPage(printer_id)
        },
        QueueMessage::TestPageFinished { printer_id, result } => {
            if !shows_queue_exec(page, printer_id.as_str()) {
                return QueueAction::Nothing;
            }
            page.operation_in_flight = false;
            match result {
                Ok(_) => {
                    page.action_error = None;
                    reload_jobs(page)
                },
                Err(why) => {
                    page.action_error = Some(why);
                    QueueAction::Nothing
                },
            }
        },
        QueueMessage::Refresh => reload_jobs(page),
        QueueMessage::ToggleCompleted => {
            page.show_completed = !page.show_completed;
            unselect(page);
            reload_jobs(page)
        },
        QueueMessage::OpenPrinterWebPage(url) => {
            page.menu = None;
            QueueAction::OpenWebPage(url)
        },
    }
}

} // verus!
