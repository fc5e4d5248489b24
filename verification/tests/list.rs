use printers::entry::PrinterEntry;
use printers::list::{
    active_job_count, apply_active_job_count, apply_printer_load, apply_printers_load,
    clear_printers_after_load_error, default_printer_selection, select_default_printer, ListFollowUp,
    PrinterList, PrintersLoad,
};

fn printer(id: &str, is_default: bool) -> PrinterEntry {
    PrinterEntry::new(id, id, is_default, Vec::new())
}

fn list() -> PrinterList {
    PrinterList {
        printers: vec![printer("annex", true), printer("studio", false)],
        default_printer_id: Some("annex".to_string()),
        active_job_counts: vec![("annex".to_string(), 2), ("studio".to_string(), 0)],
        printer_context: Some("studio".to_string()),
        printer_applications: Vec::new(),
    }
}

fn ids(list: &PrinterList) -> Vec<&str> {
    list.printers.iter().map(|p| p.id.as_str()).collect()
}

#[test]
fn a_failed_read_changes_nothing() {
    let mut shown = list();
    let follow_up = apply_printer_load(&mut shown, "studio", Err("gone away".to_string()));
    assert_eq!(follow_up, ListFollowUp { refresh_details: false, reload_jobs: false });
    assert_eq!(ids(&shown), vec!["annex", "studio"]);
    assert_eq!(shown.default_printer_id.as_deref(), Some("annex"));
}

#[test]
fn a_new_printer_goes_where_its_identifier_belongs() {
    let mut shown = list();
    let follow_up = apply_printer_load(&mut shown, "office", Ok(Some(printer("office", false))));
    assert_eq!(follow_up, ListFollowUp { refresh_details: true, reload_jobs: true });
    assert_eq!(ids(&shown), vec!["annex", "office", "studio"]);
    assert_eq!(shown.default_printer_id.as_deref(), Some("annex"));
}

#[test]
fn a_printer_read_as_default_becomes_the_only_default() {
    let mut shown = list();
    apply_printer_load(&mut shown, "studio", Ok(Some(printer("studio", true))));
    assert_eq!(shown.default_printer_id.as_deref(), Some("studio"));
    assert!(!shown.printers[0].is_default);
    assert!(shown.printers[1].is_default);
}

#[test]
fn a_default_printer_read_as_not_default_clears_the_default() {
    let mut shown = list();
    apply_printer_load(&mut shown, "annex", Ok(Some(printer("annex", false))));
    assert_eq!(shown.default_printer_id, None);
    assert_eq!(ids(&shown), vec!["annex", "studio"]);
}

#[test]
fn a_printer_gone_leaves_the_list_its_count_and_its_menu() {
    let mut shown = list();
    let follow_up = apply_printer_load(&mut shown, "studio", Ok(None));
    assert_eq!(follow_up, ListFollowUp { refresh_details: true, reload_jobs: false });
    assert_eq!(ids(&shown), vec!["annex"]);
    assert_eq!(shown.active_job_counts, vec![("annex".to_string(), 2)]);
    assert_eq!(shown.printer_context, None);
    assert_eq!(shown.default_printer_id.as_deref(), Some("annex"));

    apply_printer_load(&mut shown, "annex", Ok(None));
    assert!(shown.printers.is_empty());
    assert_eq!(shown.default_printer_id, None);
}

#[test]
fn the_selector_shows_the_default_counted_from_one() {
    let mut shown = list();
    assert_eq!(default_printer_selection(&shown), Some(1));
    shown.default_printer_id = Some("studio".to_string());
    assert_eq!(default_printer_selection(&shown), Some(2));
    shown.default_printer_id = Some("elsewhere".to_string());
    assert_eq!(default_printer_selection(&shown), Some(0));
    shown.default_printer_id = None;
    assert_eq!(default_printer_selection(&shown), Some(0));
}

#[test]
fn choosing_from_the_selector_sets_or_clears_the_default() {
    let mut shown = list();
    assert_eq!(select_default_printer(&mut shown, 2).as_deref(), Some("studio"));
    assert_eq!(shown.default_printer_id.as_deref(), Some("studio"));
    assert_eq!(select_default_printer(&mut shown, 0), None);
    assert_eq!(shown.default_printer_id, None);
    assert_eq!(select_default_printer(&mut shown, 3), None);
    assert_eq!(shown.default_printer_id, None);
}

#[test]
fn a_full_read_replaces_the_list_and_keeps_counts_of_printers_still_listed() {
    let mut shown = list();
    let follow_up = apply_printers_load(
        &mut shown,
        PrintersLoad {
            printers: vec![printer("office", false), printer("studio", true)],
            printer_applications: Vec::new(),
        },
    );
    assert_eq!(follow_up, ListFollowUp { refresh_details: true, reload_jobs: true });
    assert_eq!(ids(&shown), vec!["office", "studio"]);
    assert_eq!(shown.default_printer_id.as_deref(), Some("studio"));
    assert_eq!(shown.active_job_counts, vec![("studio".to_string(), 0)]);
    assert_eq!(shown.printer_context.as_deref(), Some("studio"));
}

#[test]
fn a_failed_full_read_shows_nothing() {
    let mut shown = list();
    clear_printers_after_load_error(&mut shown);
    assert!(shown.printers.is_empty());
    assert_eq!(shown.default_printer_id, None);
    assert!(shown.active_job_counts.is_empty());
}

#[test]
fn an_unknown_job_count_never_shows_as_an_empty_queue() {
    let mut shown = list();
    apply_active_job_count(&mut shown, "annex", Err("timed out".to_string()));
    assert_eq!(active_job_count(&shown, "annex"), 2);
    apply_active_job_count(&mut shown, "annex", Ok(5));
    assert_eq!(active_job_count(&shown, "annex"), 5);
    apply_active_job_count(&mut shown, "office", Ok(1));
    assert_eq!(active_job_count(&shown, "office"), 1);
    assert_eq!(active_job_count(&shown, "nowhere"), 0);
    assert_eq!(shown.active_job_counts.len(), 3);
}
