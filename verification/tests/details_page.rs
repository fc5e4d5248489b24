use printers::details::SupplyLevel;
use printers::details_page::{
    apply_active_job_count, apply_supplies, finish_printer_deletion, update, update_location_draft,
    DetailsAction, DetailsMessage, DetailsPage, DetailsPrinter, LocationDraft,
};
use printers::entry::PrinterEntry;

fn supply(name: &str, level: u8) -> SupplyLevel {
    SupplyLevel { name: name.to_string(), level_percent: Some(level), colors: Vec::new() }
}

fn shown(id: &str, is_default: bool, level: u8) -> DetailsPrinter {
    DetailsPrinter {
        entry: PrinterEntry::new(
            id,
            id,
            is_default,
            vec![("printer-location".to_string(), "Hall".to_string())],
        ),
        supplies: vec![supply("black", level)],
        paper_sizes: vec!["iso_a4_210x297mm".to_string(), "na_letter_8.5x11in".to_string()],
        print_sides: vec!["one-sided".to_string(), "two-sided-long-edge".to_string()],
    }
}

fn page() -> DetailsPage {
    DetailsPage {
        printer: Some(shown("office", false, 40)),
        available_printers: Vec::new(),
        location_dialog: None,
        is_default: false,
        supplies: vec![supply("black", 40)],
        active_jobs: None,
    }
}

fn option(page: &DetailsPage, name: &str) -> Option<String> {
    page.printer.as_ref().and_then(|p| p.entry.option(name).map(str::to_string))
}

#[test]
fn answers_for_a_printer_no_longer_shown_are_ignored() {
    let mut page = page();
    apply_supplies(&mut page, "studio", Ok(vec![supply("cyan", 10)]));
    assert_eq!(page.supplies, vec![supply("black", 40)]);
    apply_active_job_count(&mut page, "studio", Ok(3));
    assert_eq!(page.active_jobs, None);
}

#[test]
fn a_failed_read_keeps_what_is_shown() {
    let mut page = page();
    apply_supplies(&mut page, "office", Err("timed out".to_string()));
    assert_eq!(page.supplies, vec![supply("black", 40)]);
    apply_active_job_count(&mut page, "office", Err("timed out".to_string()));
    assert_eq!(page.active_jobs, None);
    apply_supplies(&mut page, "office", Ok(vec![supply("black", 35)]));
    assert_eq!(page.supplies, vec![supply("black", 35)]);
    apply_active_job_count(&mut page, "office", Ok(0));
    assert_eq!(page.active_jobs, Some(0));
}

#[test]
fn the_location_draft_changes_only_in_an_open_dialog() {
    let mut page = page();
    update_location_draft(&mut page, "Hall".to_string());
    assert!(page.location_dialog.is_none());
    page.location_dialog = Some(LocationDraft { printer_id: "office".into(), location: String::new() });
    update_location_draft(&mut page, "Annex".to_string());
    let draft = page.location_dialog.expect("open dialog");
    assert_eq!(draft.printer_id, "office");
    assert_eq!(draft.location, "Annex");
}

#[test]
fn a_deleted_printer_leaves_the_page() {
    let mut page = page();
    assert!(!finish_printer_deletion(&mut page, Err("refused".to_string())));
    assert!(page.printer.is_some());
    assert!(finish_printer_deletion(&mut page, Ok(())));
    assert!(page.printer.is_none());
}

#[test]
fn loading_a_printer_shows_it_and_reads_its_supplies_and_jobs() {
    let mut page = page();
    page.active_jobs = Some(4);
    let action = update(
        &mut page,
        DetailsMessage::LoadPrinter {
            printer: shown("studio", true, 70),
            is_default: true,
            available_printers: vec![PrinterEntry::new("office", "office", false, Vec::new())],
        },
    );
    assert!(matches!(action, DetailsAction::LoadSuppliesAndJobs(ref id) if id == "studio"));
    assert_eq!(page.supplies, vec![supply("black", 70)]);
    assert_eq!(page.active_jobs, None);
    assert!(page.is_default);
    assert_eq!(page.available_printers.len(), 1);
}

#[test]
fn the_location_dialog_starts_from_the_shown_location_and_saving_shows_it_at_once() {
    let mut page = page();
    assert!(matches!(update(&mut page, DetailsMessage::EditLocation("office".into())), DetailsAction::Nothing));
    assert_eq!(page.location_dialog.as_ref().map(|d| d.location.clone()).as_deref(), Some("Hall"));
    update(&mut page, DetailsMessage::EditLocation("studio".into()));
    assert_eq!(page.location_dialog.as_ref().map(|d| d.location.clone()).as_deref(), Some(""));
    let action = update(&mut page, DetailsMessage::SubmitLocation("office".into(), "Annex".into()));
    assert!(matches!(action, DetailsAction::SetLocation(ref id, ref l) if id == "office" && l == "Annex"));
    assert!(page.location_dialog.is_none());
    assert_eq!(option(&page, "printer-location").as_deref(), Some("Annex"));
}

#[test]
fn choosing_a_paper_size_sets_it_and_sends_it() {
    let mut page = page();
    let action = update(&mut page, DetailsMessage::SelectPaperSize("office".into(), 1));
    assert!(matches!(
        action,
        DetailsAction::SetOptionDefault(ref id, "media", ref v) if id == "office" && v == "na_letter_8.5x11in"
    ));
    assert_eq!(option(&page, "media").as_deref(), Some("na_letter_8.5x11in"));
    let action = update(&mut page, DetailsMessage::SelectPrintSides("office".into(), 1));
    assert!(matches!(action, DetailsAction::SetOptionDefault(_, "sides", ref v) if v == "two-sided-long-edge"));
    assert!(matches!(update(&mut page, DetailsMessage::SelectPaperSize("office".into(), 2)), DetailsAction::Nothing));
    assert!(matches!(update(&mut page, DetailsMessage::SelectPrintSides("studio".into(), 0)), DetailsAction::Nothing));
}

#[test]
fn a_refused_change_reads_the_printers_again() {
    let mut page = page();
    assert!(matches!(
        update(&mut page, DetailsMessage::PrinterLocationSet(Err("no".into()))),
        DetailsAction::RefreshPrinters
    ));
    assert!(matches!(update(&mut page, DetailsMessage::PrinterDefaultSet(Ok(()))), DetailsAction::Nothing));
    assert!(matches!(
        update(&mut page, DetailsMessage::PrinterOptionDefaultSet(Err("no".into()))),
        DetailsAction::RefreshPrinters
    ));
}

#[test]
fn toggling_the_default_shows_it_and_sends_it() {
    let mut page = page();
    assert!(matches!(
        update(&mut page, DetailsMessage::ToggleDefaultPrinter("office".into(), true)),
        DetailsAction::SetDefault(ref id) if id == "office"
    ));
    assert!(page.is_default);
    assert!(matches!(
        update(&mut page, DetailsMessage::ToggleDefaultPrinter("office".into(), false)),
        DetailsAction::ClearDefault
    ));
    assert!(!page.is_default);
}

#[test]
fn the_queue_opens_only_for_the_shown_printer() {
    let mut page = page();
    assert!(matches!(
        update(&mut page, DetailsMessage::OpenPrinterQueue("office".into())),
        DetailsAction::OpenQueue(ref id) if id == "office"
    ));
    assert!(matches!(update(&mut page, DetailsMessage::OpenPrinterQueue("studio".into())), DetailsAction::Nothing));
    assert!(matches!(
        update(&mut page, DetailsMessage::RemovePrinter("office".into())),
        DetailsAction::DeletePrinter(ref id) if id == "office"
    ));
    assert!(matches!(update(&mut page, DetailsMessage::PrinterDeleted(Ok(()))), DetailsAction::GoBack));
    assert!(page.printer.is_none());
}

#[test]
fn printers_read_again_refresh_the_shown_printer() {
    let mut page = page();
    page.active_jobs = Some(2);
    let same = update(&mut page, DetailsMessage::PrintersRefreshed(vec![shown("office", false, 40)]));
    assert!(matches!(same, DetailsAction::Nothing));
    assert_eq!(page.available_printers.len(), 1);

    let changed = update(
        &mut page,
        DetailsMessage::PrintersRefreshed(vec![shown("annex", false, 1), shown("office", true, 30)]),
    );
    assert!(matches!(changed, DetailsAction::ReloadActiveJobs(ref id) if id == "office"));
    assert!(page.is_default);
    assert_eq!(page.supplies, vec![supply("black", 30)]);
    assert_eq!(page.active_jobs, Some(2));
    assert_eq!(page.available_printers.len(), 2);

    let gone = update(&mut page, DetailsMessage::PrintersRefreshed(vec![shown("annex", false, 1)]));
    assert!(matches!(gone, DetailsAction::Nothing));
    assert!(page.printer.is_none());
    assert!(page.supplies.is_empty());
    assert_eq!(page.active_jobs, None);
    assert!(!page.is_default);
}
