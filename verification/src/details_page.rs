//! The printer details page: what it holds, and what each message does to
//! it and asks for in return. An answer for a printer no longer shown is
//! ignored, a failed read never replaces what is shown, and a change the
//! person makes shows at once and is then sent.

use vstd::prelude::*;
use crate::destinations::{entry_copy, same_entry};
use crate::details::{SupplyLevel, SupplyRgb};
use crate::entry::{entries_view, with_option, PrinterEntry, PrinterEntryView};
use crate::text::{chars_of, str_eq, string_of, strings_of};

verus! {

/// One supply of a printer as plain values.
pub struct SupplyLevelView {
    pub name: Seq<char>,
    pub level_percent: Option<u8>,
    pub colors: Seq<SupplyRgb>,
}

impl View for SupplyLevel {
    type V = SupplyLevelView;

    open spec fn view(&self) -> SupplyLevelView {
        SupplyLevelView { name: self.name@, level_percent: self.level_percent, colors: self.colors@ }
    }
}

pub open spec fn supplies_view(s: Seq<SupplyLevel>) -> Seq<SupplyLevelView> {
    s.map_values(|x: SupplyLevel| x@)
}

/// What the page shows of a printer: the destination, its supplies as last
/// read with it, and the paper sizes and sides it offers.
pub struct DetailsPrinter {
    pub entry: PrinterEntry,
    pub supplies: Vec<SupplyLevel>,
    pub paper_sizes: Vec<String>,
    pub print_sides: Vec<String>,
}

pub struct DetailsPrinterView {
    pub entry: PrinterEntryView,
    pub supplies: Seq<SupplyLevelView>,
    pub paper_sizes: Seq<Seq<char>>,
    pub print_sides: Seq<Seq<char>>,
}

impl View for DetailsPrinter {
    type V = DetailsPrinterView;

    open spec fn view(&self) -> DetailsPrinterView {
        DetailsPrinterView {
            entry: self.entry@,
            supplies: supplies_view(self.supplies@),
            paper_sizes: strings_of(self.paper_sizes@),
            print_sides: strings_of(self.print_sides@),
        }
    }
}

pub open spec fn details_printers_view(s: Seq<DetailsPrinter>) -> Seq<DetailsPrinterView> {
    s.map_values(|p: DetailsPrinter| p@)
}

/// The location being edited in the location dialog.
pub struct LocationDraft {
    pub printer_id: String,
    pub location: String,
}

/// What the details page holds.
pub struct DetailsPage {
    /// The printer shown, if any.
    pub printer: Option<DetailsPrinter>,
    /// The printers jobs can be moved to from the queue.
    pub available_printers: Vec<PrinterEntry>,
    /// The open location dialog, if any.
    pub location_dialog: Option<LocationDraft>,
    /// Whether the shown printer is the default.
    pub is_default: bool,
    pub supplies: Vec<SupplyLevel>,
    /// The shown printer's count of active jobs, once read.
    pub active_jobs: Option<usize>,
}

pub struct DetailsPageView {
    pub printer: Option<DetailsPrinterView>,
    pub available_printers: Seq<PrinterEntryView>,
    /// The printer and the location of the open location dialog.
    pub location_dialog: Option<(Seq<char>, Seq<char>)>,
    pub is_default: bool,
    pub supplies: Seq<SupplyLevelView>,
    pub active_jobs: Option<usize>,
}

impl View for DetailsPage {
    type V = DetailsPageView;

    open spec fn view(&self) -> DetailsPageView {
        DetailsPageView {
            printer: match self.printer {
                Some(p) => Some(p@),
                None => None,
            },
            available_printers: entries_view(self.available_printers@),
            location_dialog: match self.location_dialog {
                Some(d) => Some((d.printer_id@, d.location@)),
                None => None,
            },
            is_default: self.is_default,
            supplies: supplies_view(self.supplies@),
            active_jobs: self.active_jobs,
        }
    }
}

/// A message the details page handles.
pub enum DetailsMessage {
    /// Back to the printer list.
    GoBack,
    /// Opens the location dialog for a printer.
    EditLocation(String),
    /// The location typed in the dialog changed.
    EditLocationChanged(String),
    /// Saves a printer's location.
    SubmitLocation(String, String),
    /// Closes the dialog.
    CancelDialog,
    /// Shows a printer.
    LoadPrinter { printer: DetailsPrinter, is_default: bool, available_printers: Vec<PrinterEntry> },
    /// Opens a printer's queue.
    OpenPrinterQueue(String),
    /// Removes a printer.
    RemovePrinter(String),
    /// The removal ended.
    PrinterDeleted(Result<(), String>),
    /// Chooses a default paper size by its place in the printer's list.
    SelectPaperSize(String, usize),
    /// Chooses the default sides by its place in the printer's list.
    SelectPrintSides(String, usize),
    /// Changing an option default ended.
    PrinterOptionDefaultSet(Result<(), String>),
    /// Makes a printer the default (`true`) or clears the default.
    ToggleDefaultPrinter(String, bool),
    /// Changing the default printer ended.
    PrinterDefaultSet(Result<(), String>),
    /// Changing a location ended.
    PrinterLocationSet(Result<(), String>),
    /// A printer's supplies were read.
    SuppliesLoaded { printer_id: String, result: Result<Vec<SupplyLevel>, String> },
    /// A printer's count of active jobs was read.
    ActiveJobsLoaded { printer_id: String, result: Result<usize, String> },
    /// The printers were read again.
    PrintersRefreshed(Vec<DetailsPrinter>),
}

/// What the page asks for after a message.
pub enum DetailsAction {
    Nothing,
    /// Back to the printer list.
    GoBack,
    /// Read the supplies and the active jobs of this printer.
    LoadSuppliesAndJobs(String),
    /// Count the active jobs of this printer again.
    ReloadActiveJobs(String),
    /// Make this printer the user's default.
    SetDefault(String),
    /// Clear the user's default printer.
    ClearDefault,
    /// Delete this printer.
    DeletePrinter(String),
    /// Set this printer's location.
    SetLocation(String, String),
    /// Set the default of an option of this printer.
    SetOptionDefault(String, &'static str, String),
    /// Show this printer's queue.
    OpenQueue(String),
    /// Read the printers again, as a change was refused.
    RefreshPrinters,
}

pub enum DetailsActionView {
    Nothing,
    GoBack,
    LoadSuppliesAndJobs(Seq<char>),
    ReloadActiveJobs(Seq<char>),
    SetDefault(Seq<char>),
    ClearDefault,
    DeletePrinter(Seq<char>),
    SetLocation(Seq<char>, Seq<char>),
    SetOptionDefault(Seq<char>, Seq<char>, Seq<char>),
    OpenQueue(Seq<char>),
    RefreshPrinters,
}

impl View for DetailsAction {
    type V = DetailsActionView;

    open spec fn view(&self) -> DetailsActionView {
        match self {
            DetailsAction::Nothing => DetailsActionView::Nothing,
            DetailsAction::GoBack => DetailsActionView::GoBack,
            DetailsAction::LoadSuppliesAndJobs(p) => DetailsActionView::LoadSuppliesAndJobs(p@),
            DetailsAction::ReloadActiveJobs(p) => DetailsActionView::ReloadActiveJobs(p@),
            DetailsAction::SetDefault(p) => DetailsActionView::SetDefault(p@),
            DetailsAction::ClearDefault => DetailsActionView::ClearDefault,
            DetailsAction::DeletePrinter(p) => DetailsActionView::DeletePrinter(p@),
            DetailsAction::SetLocation(p, l) => DetailsActionView::SetLocation(p@, l@),
            DetailsAction::SetOptionDefault(p, o, v) => DetailsActionView::SetOptionDefault(p@, o@, v@),
            DetailsAction::OpenQueue(p) => DetailsActionView::OpenQueue(p@),
            DetailsAction::RefreshPrinters => DetailsActionView::RefreshPrinters,
        }
    }
}

/// Whether the page shows the printer with identifier `id`.
pub open spec fn shows(page: DetailsPageView, id: Seq<char>) -> bool {
    page.printer matches Some(p) && p.entry.id == id
}

/// Where the first printer with identifier `id` stands.
pub open spec fn first_printer(printers: Seq<DetailsPrinterView>, id: Seq<char>) -> Option<int>
    decreases printers.len(),
{
    if printers.len() == 0 {
        None
    } else if printers[0].entry.id == id {
        Some(0)
    } else {
        match first_printer(printers.drop_first(), id) {
            Some(k) => Some(k + 1),
            None => None,
        }
    }
}

/// The printer with one option set.
pub open spec fn with_printer_option(p: DetailsPrinterView, name: Seq<char>, value: Seq<char>) -> DetailsPrinterView {
    DetailsPrinterView {
        entry: PrinterEntryView { options: with_option(p.entry.options, name, value), ..p.entry },
        ..p
    }
}

/// Choosing the `index`-th value of `values` as the default of `option`:
/// the shown printer takes it and the change is sent; an index past the
/// list, or a printer not shown, changes nothing.
pub open spec fn option_chosen(
    before: DetailsPageView,
    id: Seq<char>,
    index: usize,
    values: spec_fn(DetailsPrinterView) -> Seq<Seq<char>>,
    option: Seq<char>,
    after: DetailsPageView,
    r: DetailsActionView,
) -> bool {
    match before.printer {
        Some(p) => if p.entry.id == id && index < values(p).len() {
            &&& after == DetailsPageView { printer: Some(with_printer_option(p, option, values(p)[index as int])), ..before }
            &&& r == DetailsActionView::SetOptionDefault(id, option, values(p)[index as int])
        } else {
            after == before && r == DetailsActionView::Nothing
        },
        None => after == before && r == DetailsActionView::Nothing,
    }
}

/// The end of a change shown before it was sent: a refusal has the
/// printers read again so that the page shows what holds.
pub open spec fn change_finished(result: Result<(), String>, before: DetailsPageView, after: DetailsPageView, r: DetailsActionView) -> bool {
    &&& after == before
    &&& r == if result is Ok {
        DetailsActionView::Nothing
    } else {
        DetailsActionView::RefreshPrinters
    }
}

/// What the printers read again do to the page. Without a printer shown
/// only the printers to move jobs to change. The shown printer, read again
/// and different, is shown as read, with its supplies and default flag,
/// and its jobs are counted again; read again and the same, it stays; not
/// read again, the page shows no printer.
pub open spec fn printers_refreshed(before: DetailsPageView, printers: Seq<DetailsPrinterView>, after: DetailsPageView, r: DetailsActionView) -> bool {
    let available = printers.map_values(|p: DetailsPrinterView| p.entry);
    match before.printer {
        None => after == DetailsPageView { available_printers: available, ..before } && r == DetailsActionView::Nothing,
        Some(p) => match first_printer(printers, p.entry.id) {
            Some(k) => if printers[k] == p {
                after == DetailsPageView { available_printers: available, ..before } && r == DetailsActionView::Nothing
            } else {
                &&& after == DetailsPageView {
                    printer: Some(printers[k]),
                    supplies: printers[k].supplies,
                    is_default: printers[k].entry.is_default,
                    available_printers: available,
                    ..before
                }
                &&& r == DetailsActionView::ReloadActiveJobs(printers[k].entry.id)
            },
            None => {
                &&& after == DetailsPageView {
                    printer: None,
                    supplies: Seq::empty(),
                    active_jobs: None,
                    is_default: false,
                    available_printers: available,
                    ..before
                }
                &&& r == DetailsActionView::Nothing
            },
        },
    }
}

/// What one message does to the page, and what it asks for.
pub open spec fn details_step(before: DetailsPageView, message: DetailsMessage, after: DetailsPageView, r: DetailsActionView) -> bool {
    match message {
        DetailsMessage::GoBack => after == before && r == DetailsActionView::GoBack,
        DetailsMessage::EditLocation(id) => {
            let location = match before.printer {
                Some(p) => if p.entry.id == id@ {
                    match p.entry.location() {
                        Some(l) => l,
                        None => Seq::<char>::empty(),
                    }
                } else {
                    Seq::<char>::empty()
                },
                None => Seq::<char>::empty(),
            };
            after == DetailsPageView { location_dialog: Some((id@, location)), ..before } && r == DetailsActionView::Nothing
        },
        DetailsMessage::EditLocationChanged(location) => {
            &&& after == DetailsPageView {
                location_dialog: match before.location_dialog {
                    Some((id, _)) => Some((id, location@)),
                    None => None,
                },
                ..before
            }
            &&& r == DetailsActionView::Nothing
        },
        DetailsMessage::SubmitLocation(id, location) => {
            &&& after == DetailsPageView {
                location_dialog: None,
                printer: match before.printer {
                    Some(p) => if p.entry.id == id@ {
                        Some(with_printer_option(p, "printer-location"@, location@))
                    } else {
                        Some(p)
                    },
                    None => None,
                },
                ..before
            }
            &&& r == DetailsActionView::SetLocation(id@, location@)
        },
        DetailsMessage::CancelDialog => after == DetailsPageView { location_dialog: None, ..before } && r
            == DetailsActionView::Nothing,
        DetailsMessage::LoadPrinter { printer, is_default, available_printers } => {
            &&& after == DetailsPageView {
                printer: Some(printer@),
                available_printers: entries_view(available_printers@),
                location_dialog: before.location_dialog,
                is_default,
                supplies: printer@.supplies,
                active_jobs: None,
            }
            &&& r == DetailsActionView::LoadSuppliesAndJobs(printer@.entry.id)
        },
        DetailsMessage::OpenPrinterQueue(id) => after == before && r == if shows(before, id@) {
            DetailsActionView::OpenQueue(id@)
        } else {
            DetailsActionView::Nothing
        },
        DetailsMessage::RemovePrinter(id) => after == before && r == DetailsActionView::DeletePrinter(id@),
        DetailsMessage::PrinterDeleted(result) => if result is Ok {
            after == DetailsPageView { printer: None, ..before } && r == DetailsActionView::GoBack
        } else {
            after == before && r == DetailsActionView::Nothing
        },
        DetailsMessage::SelectPaperSize(id, index) => option_chosen(
            before,
            id@,
            index,
            |p: DetailsPrinterView| p.paper_sizes,
            "media"@,
            after,
            r,
        ),
        DetailsMessage::SelectPrintSides(id, index) => option_chosen(
            before,
            id@,
            index,
            |p: DetailsPrinterView| p.print_sides,
            "sides"@,
            after,
            r,
        ),
        DetailsMessage::PrinterOptionDefaultSet(result) => change_finished(result, before, after, r),
        DetailsMessage::PrinterDefaultSet(result) => change_finished(result, before, after, r),
        DetailsMessage::PrinterLocationSet(result) => change_finished(result, before, after, r),
        DetailsMessage::ToggleDefaultPrinter(id, make_default) => if make_default {
            after == DetailsPageView { is_default: true, ..before } && r == DetailsActionView::SetDefault(id@)
        } else {
            after == DetailsPageView { is_default: false, ..before } && r == DetailsActionView::ClearDefault
        },
        DetailsMessage::SuppliesLoaded { printer_id, result } => {
            &&& after == DetailsPageView {
                supplies: match result {
                    Ok(s) => if shows(before, printer_id@) {
                        supplies_view(s@)
                    } else {
                        before.supplies
                    },
                    Err(_) => before.supplies,
                },
                ..before
            }
            &&& r == DetailsActionView::Nothing
        },
        DetailsMessage::ActiveJobsLoaded { printer_id, result } => {
            &&& after == DetailsPageView {
                active_jobs: match result {
                    Ok(n) => if shows(before, printer_id@) {
                        Some(n)
                    } else {
                        before.active_jobs
                    },
                    Err(_) => before.active_jobs,
                },
                ..before
            }
            &&& r == DetailsActionView::Nothing
        },
        DetailsMessage::PrintersRefreshed(printers) => printers_refreshed(
            before,
            details_printers_view(printers@),
            after,
            r,
        ),
    }
}

fn copy_text(s: &String) -> (r: String)
    ensures
        r@ == s@,
{
    string_of(chars_of(s.as_str()))
}

fn same_strings(a: &Vec<String>, b: &Vec<String>) -> (r: bool)
    ensures
        r == (strings_of(a@) == strings_of(b@)),
{
    if a.len() != b.len() {
        proof {
            assert(strings_of(a@).len() != strings_of(b@).len());
        }
        return false;
    }
    let mut i: usize = 0;
    while i < a.len()
        invariant
            i <= a@.len(),
            a@.len() == b@.len(),
            forall|k: int| 0 <= k < i ==> (#[trigger] strings_of(a@)[k]) == strings_of(b@)[k],
        decreases a.len() - i,
    {
        if !str_eq(a[i].as_str(), b[i].as_str()) {
            proof {
                assert(strings_of(a@)[i as int] != strings_of(b@)[i as int]);
            }
            return false;
        }
        i += 1;
    }
    proof {
        assert(strings_of(a@) =~= strings_of(b@));
    }
    true
}

fn same_colors(a: &Vec<SupplyRgb>, b: &Vec<SupplyRgb>) -> (r: bool)
    ensures
        r == (a@ == b@),
{
    if a.len() != b.len() {
        return false;
    }
    let mut i: usize = 0;
    while i < a.len()
        invariant
            i <= a@.len(),
            a@.len() == b@.len(),
            forall|k: int| 0 <= k < i ==> a@[k] == b@[k],
        decreases a.len() - i,
    {
        if a[i] != b[i] {
            return false;
        }
        i += 1;
    }
    proof {
        assert(a@ =~= b@);
    }
    true
}

fn same_supplies(a: &Vec<SupplyLevel>, b: &Vec<SupplyLevel>) -> (r: bool)
    ensures
        r == (supplies_view(a@) == supplies_view(b@)),
{
    if a.len() != b.len() {
        proof {
            assert(supplies_view(a@).len() != supplies_view(b@).len());
        }
        return false;
    }
    let mut i: usize = 0;
    while i < a.len()
        invariant
            i <= a@.len(),
            a@.len() == b@.len(),
            forall|k: int| 0 <= k < i ==> (#[trigger] supplies_view(a@)[k]) == supplies_view(b@)[k],
        decreases a.len() - i,
    {
        if !str_eq(a[i].name.as_str(), b[i].name.as_str()) || a[i].level_percent != b[i].level_percent
            || !same_colors(&a[i].colors, &b[i].colors) {
            proof {
                assert(supplies_view(a@)[i as int] != supplies_view(b@)[i as int]);
            }
            return false;
        }
        proof {
            assert(supplies_view(a@)[i as int] == supplies_view(b@)[i as int]);
        }
        i += 1;
    }
    proof {
        assert(supplies_view(a@) =~= supplies_view(b@));
    }
    true
}

fn same_details_printer(a: &DetailsPrinter, b: &DetailsPrinter) -> (r: bool)
    ensures
        r == (a@ == b@),
{
    same_entry(&a.entry, &b.entry) && same_supplies(&a.supplies, &b.supplies) && same_strings(
        &a.paper_sizes,
        &b.paper_sizes,
    ) && same_strings(&a.print_sides, &b.print_sides)
}

fn copy_colors(c: &Vec<SupplyRgb>) -> (r: Vec<SupplyRgb>)
    ensures
        r@ == c@,
{
    let mut out: Vec<SupplyRgb> = Vec::new();
    let mut i: usize = 0;
    while i < c.len()
        invariant
            i <= c@.len(),
            out@ == c@.take(i as int),
        decreases c.len() - i,
    {
        out.push(c[i]);
        proof {
            assert(c@.take(i + 1) =~= c@.take(i as int).push(c@[i as int]));
        }
        i += 1;
    }
    proof {
        assert(c@.take(c@.len() as int) =~= c@);
    }
    out
}

fn copy_supplies(s: &Vec<SupplyLevel>) -> (r: Vec<SupplyLevel>)
    ensures
        supplies_view(r@) == supplies_view(s@),
{
    let mut out: Vec<SupplyLevel> = Vec::new();
    let mut i: usize = 0;
    while i < s.len()
        invariant
            i <= s@.len(),
            supplies_view(out@) == supplies_view(s@).take(i as int),
        decreases s.len() - i,
    {
        let ghost prev = out@;
        out.push(
            SupplyLevel {
                name: copy_text(&s[i].name),
                level_percent: s[i].level_percent,
                colors: copy_colors(&s[i].colors),
            },
        );
        proof {
            assert(supplies_view(out@) =~= supplies_view(prev).push(s@[i as int]@));
            assert(supplies_view(s@).take(i + 1) =~= supplies_view(s@).take(i as int).push(s@[i as int]@));
        }
        i += 1;
    }
    proof {
        assert(supplies_view(s@).take(s@.len() as int) =~= supplies_view(s@));
    }
    out
}

fn shows_exec(page: &DetailsPage, id: &str) -> (r: bool)
    ensures
        r == shows(page@, id@),
{
    match &page.printer {
        Some(p) => str_eq(p.entry.id.as_str(), id),
        None => false,
    }
}

proof fn lemma_first_printer(printers: Seq<DetailsPrinterView>, id: Seq<char>)
    ensures
        first_printer(printers, id) matches Some(k) ==> 0 <= k < printers.len() && printers[k].entry.id == id,
    decreases printers.len(),
{
    if printers.len() > 0 && printers[0].entry.id != id {
        lemma_first_printer(printers.drop_first(), id);
    }
}

fn first_printer_exec(printers: &Vec<DetailsPrinter>, id: &str) -> (r: Option<usize>)
    ensures
        match first_printer(details_printers_view(printers@), id@) {
            Some(k) => r == Some(k as usize),
            None => r is None,
        },
        r matches Some(k) ==> k < printers@.len(),
{
    let ghost all = details_printers_view(printers@);
    proof {
        lemma_first_printer(all, id@);
        assert(all.skip(0) =~= all);
    }
    let mut i: usize = 0;
    while i < printers.len()
        invariant
            i <= printers@.len(),
            all == details_printers_view(printers@),
            first_printer(all, id@) == match first_printer(all.skip(i as int), id@) {
                Some(k) => Some(k + i),
                None => None,
            },
        decreases printers.len() - i,
    {
        proof {
            assert(all.skip(i as int).drop_first() =~= all.skip(i + 1));
            assert(all.skip(i as int)[0] == all[i as int]);
        }
        if str_eq(printers[i].entry.id.as_str(), id) {
            return Some(i);
        }
        i += 1;
    }
    proof {
        assert(all.skip(i as int).len() == 0);
    }
    None
}

fn entries_of(printers: &Vec<DetailsPrinter>) -> (r: Vec<PrinterEntry>)
    ensures
        entries_view(r@) == details_printers_view(printers@).map_values(|p: DetailsPrinterView| p.entry),
{
    let ghost want = details_printers_view(printers@).map_values(|p: DetailsPrinterView| p.entry);
    let mut out: Vec<PrinterEntry> = Vec::new();
    let mut i: usize = 0;
    while i < printers.len()
        invariant
            i <= printers@.len(),
            want == details_printers_view(printers@).map_values(|p: DetailsPrinterView| p.entry),
            entries_view(out@) == want.take(i as int),
        decreases printers.len() - i,
    {
        let ghost prev = out@;
        out.push(entry_copy(&printers[i].entry));
        proof {
            assert(entries_view(out@) =~= entries_view(prev).push(printers@[i as int].entry@));
            assert(want.take(i + 1) =~= want.take(i as int).push(printers@[i as int].entry@));
        }
        i += 1;
    }
    proof {
        assert(want.take(printers@.len() as int) =~= want);
    }
    out
}

/// Takes the supplies read for a printer, if it is still shown; a failed
/// read keeps the levels shown.
pub fn apply_supplies(page: &mut DetailsPage, printer_id: &str, result: Result<Vec<SupplyLevel>, String>)
    ensures
        final(page)@ == (DetailsPageView {
            supplies: match result {
                Ok(s) => if shows(old(page)@, printer_id@) {
                    supplies_view(s@)
                } else {
                    old(page)@.supplies
                },
                Err(_) => old(page)@.supplies,
            },
            ..old(page)@
        }),
{
    if !shows_exec(page, printer_id) {
        return;
    }
    match result {
        Ok(supplies) => page.supplies = supplies,
        Err(_) => {},
    }
}

/// Takes the count of active jobs read for a printer, if it is still
/// shown; a failed read does not make the queue look empty.
pub fn apply_active_job_count(page: &mut DetailsPage, printer_id: &str, result: Result<usize, String>)
    ensures
        final(page)@ == (DetailsPageView {
            active_jobs: match result {
                Ok(n) => if shows(old(page)@, printer_id@) {
                    Some(n)
                } else {
                    old(page)@.active_jobs
                },
                Err(_) => old(page)@.active_jobs,
            },
            ..old(page)@
        }),
{
    if !shows_exec(page, printer_id) {
        return;
    }
    match result {
        Ok(count) => page.active_jobs = Some(count),
        Err(_) => {},
    }
}

/// Replaces the location typed in the open location dialog; without an
/// open dialog nothing changes.
pub fn update_location_draft(page: &mut DetailsPage, location: String)
    ensures
        final(page)@ == (DetailsPageView {
            location_dialog: match old(page)@.location_dialog {
                Some((id, _)) => Some((id, location@)),
                None => None,
            },
            ..old(page)@
        }),
{
    match &mut page.location_dialog {
        Some(draft) => draft.location = location,
        None => {},
    }
}

/// After the shown printer was deleted the page shows none and goes back;
/// after a refusal it stays as it was. Returns whether to go back.
pub fn finish_printer_deletion(page: &mut DetailsPage, result: Result<(), String>) -> (go_back: bool)
    ensures
        go_back == result is Ok,
        final(page)@ == if result is Ok {
            DetailsPageView { printer: None, ..old(page)@ }
        } else {
            old(page)@
        },
{
    match result {
        Ok(()) => {
            page.printer = None;
            true
        },
        Err(_) => false,
    }
}

/// Applies the printers read again.
fn refresh_printers(page: &mut DetailsPage, printers: Vec<DetailsPrinter>) -> (r: DetailsAction)
    ensures
        printers_refreshed(old(page)@, details_printers_view(printers@), final(page)@, r@),
{
    let ghost pv = details_printers_view(printers@);
    let available = entries_of(&printers);
    let mut printers = printers;
    let shown = match &page.printer {
        None => {
            page.available_printers = available;
            return DetailsAction::Nothing;
        },
        Some(p) => copy_text(&p.entry.id),
    };
    match first_printer_exec(&printers, shown.as_str()) {
        Some(k) => {
            proof {
                lemma_first_printer(pv, shown@);
            }
            let same = match &page.printer {
                Some(p) => same_details_printer(&printers[k], p),
                None => false,
            };
            if same {
                page.available_printers = available;
                DetailsAction::Nothing
            } else {
                let refreshed = printers.remove(k);
                proof {
                    assert(refreshed@ == pv[k as int]);
                }
                let id = copy_text(&refreshed.entry.id);
                page.supplies = copy_supplies(&refreshed.supplies);
                page.is_default = refreshed.entry.is_default;
                page.printer = Some(refreshed);
                page.available_printers = available;
                DetailsAction::ReloadActiveJobs(id)
            }
        },
        None => {
            page.printer = None;
            page.supplies = Vec::new();
            page.active_jobs = None;
            page.is_default = false;
            page.available_printers = available;
            proof {
                assert(supplies_view(page.supplies@) =~= Seq::<SupplyLevelView>::empty());
            }
            DetailsAction::Nothing
        },
    }
}

/// Sets an option of the shown printer to its `index`-th offered value,
/// for paper sizes (`media`) or sides (`sides`).
fn choose_option(page: &mut DetailsPage, printer_id: String, index: usize, sides: bool) -> (r: DetailsAction)
    ensures
        !sides ==> option_chosen(
            old(page)@,
            printer_id@,
            index,
            |p: DetailsPrinterView| p.paper_sizes,
            "media"@,
            final(page)@,
            r@,
        ),
        sides ==> option_chosen(
            old(page)@,
            printer_id@,
            index,
            |p: DetailsPrinterView| p.print_sides,
            "sides"@,
            final(page)@,
            r@,
        ),
{
    let option: &'static str = if sides {
        "sides"
    } else {
        "media"
    };
    match page.printer.take() {
        Some(mut p) => {
            let ghost pv = p@;
            let values = if sides {
                &p.print_sides
            } else {
                &p.paper_sizes
            };
            if str_eq(p.entry.id.as_str(), printer_id.as_str()) && index < values.len() {
                let value = copy_text(&values[index]);
                p.entry.set_option(option, copy_text(&value));
                proof {
                    assert(p@ == with_printer_option(pv, option@, value@));
                }
                page.printer = Some(p);
                DetailsAction::SetOptionDefault(printer_id, option, value)
            } else {
                page.printer = Some(p);
                DetailsAction::Nothing
            }
        },
        None => DetailsAction::Nothing,
    }
}

/// Handles one message: changes the page as [`details_step`] says and
/// returns what to ask for.
pub fn update(page: &mut DetailsPage, message: DetailsMessage) -> (r: DetailsAction)
    ensures
        details_step(old(page)@, message, final(page)@, r@),
{
    match message {
        DetailsMessage::GoBack => DetailsAction::GoBack,
        DetailsMessage::EditLocation(id) => {
            let location = match &page.printer {
                Some(p) => if str_eq(p.entry.id.as_str(), id.as_str()) {
                    match p.entry.location() {
                        Some(l) => string_of(chars_of(l)),
                        None => String::new(),
                    }
                } else {
                    String::new()
                },
                None => String::new(),
            };
            page.location_dialog = Some(LocationDraft { printer_id: id, location });
            DetailsAction::Nothing
        },
        DetailsMessage::EditLocationChanged(location) => {
            update_location_draft(page, location);
            DetailsAction::Nothing
        },
        DetailsMessage::SubmitLocation(id, location) => {
            page.location_dialog = None;
            match page.printer.take() {
                Some(mut p) => {
                    if str_eq(p.entry.id.as_str(), id.as_str()) {
                        p.entry.set_option("printer-location", copy_text(&location));
                    }
                    page.printer = Some(p);
                },
                None => {},
            }
            DetailsAction::SetLocation(id, location)
        },
        DetailsMessage::CancelDialog => {
            page.location_dialog = None;
            DetailsAction::Nothing
        },
        DetailsMessage::LoadPrinter { printer, is_default, available_printers } => {
            let id = copy_text(&printer.entry.id);
            page.supplies = copy_supplies(&printer.supplies);
            page.active_jobs = None;
            page.printer = Some(printer);
            page.is_default = is_default;
            page.available_printers = available_printers;
            DetailsAction::LoadSuppliesAndJobs(id)
        },
        DetailsMessage::OpenPrinterQueue(id) => {
            if shows_exec(page, id.as_str()) {
                DetailsAction::OpenQueue(id)
            } else {
                DetailsAction::Nothing
            }
        },
        DetailsMessage::RemovePrinter(id) => DetailsAction::DeletePrinter(id),
        DetailsMessage::PrinterDeleted(result) => {
            if finish_printer_deletion(page, result) {
                DetailsAction::GoBack
            } else {
                DetailsAction::Nothing
            }
        },
        DetailsMessage::SelectPaperSize(id, index) => choose_option(page, id, index, false),
        DetailsMessage::SelectPrintSides(id, index) => choose_option(page, id, index, true),
        DetailsMessage::PrinterOptionDefaultSet(result) | DetailsMessage::PrinterDefaultSet(result)
        | DetailsMessage::PrinterLocationSet(result) => {
            if result.is_ok() {
                DetailsAction::Nothing
            } else {
                DetailsAction::RefreshPrinters
            }
        },
        DetailsMessage::ToggleDefaultPrinter(id, make_default) => {
            page.is_default = make_default;
            if make_default {
                DetailsAction::SetDefault(id)
            } else {
                DetailsAction::ClearDefault
            }
        },
        DetailsMessage::SuppliesLoaded { printer_id, result } => {
            apply_supplies(page, printer_id.as_str(), result);
            DetailsAction::Nothing
        },
        DetailsMessage::ActiveJobsLoaded { printer_id, result } => {
            apply_active_job_count(page, printer_id.as_str(), result);
            DetailsAction::Nothing
        },
        DetailsMessage::PrintersRefreshed(printers) => refresh_printers(page, printers),
    }
}

} // verus!
