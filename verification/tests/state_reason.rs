use printers::entry::PrinterEntry;
use printers::state_reason::{split_severity, worst_message, Severity};

fn printer(reasons: &str) -> PrinterEntry {
    PrinterEntry::new(
        "printer",
        "Printer",
        false,
        vec![("printer-state-reasons".to_string(), reasons.to_string())],
    )
}

fn worst_of(printer: &PrinterEntry) -> Option<(&'static str, Severity)> {
    worst_message(printer.option("printer-state-reasons").unwrap_or_default())
}

#[test]
fn a_suffix_says_how_much_a_reason_matters() {
    assert_eq!(split_severity("media-jam-error").1, Severity::Error);
    assert_eq!(split_severity("media-low-warning").1, Severity::Warning);
    assert_eq!(split_severity("media-empty-report").1, Severity::Report);
    assert_eq!(split_severity("media-empty").1, Severity::Report);
    assert_eq!(split_severity("media-empty-report").0, "media-empty");
}

#[test]
fn the_worst_reason_is_the_one_shown() {
    let reason = worst_of(&printer("media-low-report,media-jam-error,toner-low-warning")).unwrap();

    assert_eq!(reason.1, Severity::Error);
    assert_eq!(reason.0, "printer-reason-paper-jam");
}

#[test]
fn the_reasons_this_hardware_reports_are_put_into_words() {
    assert_eq!(
        worst_of(&printer("media-empty-report")).map(|reason| reason.0),
        Some("printer-reason-out-of-paper")
    );
    assert_eq!(
        worst_of(&printer("spool-area-full-report")).map(|reason| reason.0),
        Some("printer-reason-spool-full")
    );
}

#[test]
fn a_reason_that_says_nothing_shows_nothing() {
    assert_eq!(worst_of(&printer("none")), None);
    assert_eq!(worst_of(&printer("other")), None);
    assert_eq!(worst_of(&printer("")), None);
}

#[test]
fn an_unknown_keyword_is_not_read_out() {
    assert_eq!(worst_of(&printer("vendor-thing-broke-error")), None);
}

#[test]
fn a_known_reason_still_shows_beside_an_unknown_one() {
    let reason = worst_of(&printer("vendor-thing-broke-error,media-jam-error")).unwrap();

    assert_eq!(reason.0, "printer-reason-paper-jam");
}
