use printers::ipp::{IppAttribute, IppGroup};
use printers::notify::{
    highest_sequence, job_state, next_sequence, printer_available, printer_removed,
    read_notifications, reason_phrase, Event, Jobs, Notification,
};
use printers::queue::JobState;

fn notification(event: &str, printer: &str) -> Notification {
    Notification {
        event: event.to_string(),
        printer: printer.to_string(),
        sequence: 1,
        ..Default::default()
    }
}

fn job(id: i32, event: &str, state: i32) -> Notification {
    Notification {
        event: event.to_string(),
        printer: "Acme_Laser".to_string(),
        job_id: id,
        job_name: "report.pdf".to_string(),
        job_state: state,
        ..Default::default()
    }
}

fn text(name: &str, value: &str) -> IppAttribute {
    IppAttribute {
        name: Some(name.to_string()),
        group: IppGroup::EventNotification,
        text: Some(value.to_string()),
        integer: 0,
    }
}

fn integer(name: &str, value: i32) -> IppAttribute {
    IppAttribute {
        name: Some(name.to_string()),
        group: IppGroup::EventNotification,
        text: None,
        integer: value,
    }
}

fn separator() -> IppAttribute {
    IppAttribute { name: None, group: IppGroup::Other, text: None, integer: 0 }
}

#[test]
fn a_job_event_refreshes_the_printer_that_owns_it() {
    assert!(matches!(
        notification("job-completed", "Acme_Laser").into_event(),
        Some(Event::JobsChanged(printer)) if printer == "Acme_Laser"
    ));
}

#[test]
fn a_deleted_printer_is_not_re_read() {
    assert!(matches!(
        notification("printer-deleted", "Acme_Laser").into_event(),
        Some(Event::PrinterRemoved(_))
    ));
}

#[test]
fn an_unknown_printer_event_still_re_reads_the_printer() {
    assert!(matches!(
        notification("printer-media-changed", "Acme_Laser").into_event(),
        Some(Event::PrinterChanged(_))
    ));
}

#[test]
fn an_event_without_a_name_is_skipped() {
    assert!(notification("", "Acme_Laser").into_event().is_none());
}

#[test]
fn an_event_without_a_printer_is_skipped() {
    assert!(notification("job-created", "").into_event().is_none());
}

#[test]
fn a_recognized_reason_reads_as_a_phrase() {
    assert_eq!(reason_phrase("media-empty-warning"), Some("out of paper"));
    assert_eq!(reason_phrase("none,marker-supply-low-report"), Some("low on toner"));
    assert_eq!(reason_phrase("media-jam"), Some("paper jam"));
}

#[test]
fn an_unrecognized_reason_is_left_unsaid() {
    assert_eq!(reason_phrase("none"), None);
    assert_eq!(reason_phrase(""), None);
}

#[test]
fn a_job_is_announced_once_for_one_ending() {
    let mut jobs = Jobs::new();

    let first = jobs.announce_end(&job(7, "job-completed", 9));
    assert!(first.is_some());
    assert_eq!(jobs.last_state.get(&7), Some(&9));

    let again = jobs.announce_end(&job(7, "job-completed", 9));
    assert!(again.is_none());
    assert_eq!(jobs.last_state.len(), 1);
}

#[test]
fn a_job_still_printing_is_not_announced() {
    let mut jobs = Jobs::new();

    jobs.announce_end(&job(7, "job-progress", 5));
    jobs.announce_end(&job(7, "job-created", 3));

    assert!(jobs.last_state.is_empty());
}

#[test]
fn a_cancelled_job_is_not_announced() {
    let mut jobs = Jobs::new();

    jobs.announce_end(&job(7, "job-state-changed", 7));

    assert!(jobs.last_state.is_empty());
}

#[test]
fn a_printer_event_is_not_taken_for_a_job() {
    let mut jobs = Jobs::new();

    jobs.announce_end(&job(0, "printer-state-changed", 9));

    assert!(jobs.last_state.is_empty());
}

#[test]
fn an_ending_says_what_stopped_and_why() {
    let mut jobs = Jobs::new();
    let mut stopped = job(3, "job-stopped", 6);
    stopped.reasons = "media-jam-error".to_string();
    let announcement = jobs.announce_end(&stopped).expect("an announcement");
    assert_eq!(announcement.summary, "Printing stopped");
    assert_eq!(announcement.body, "report.pdf on Acme_Laser — paper jam");
    assert_eq!(announcement.icon, "printer-error-symbolic");

    let mut done = job(4, "job-completed", 9);
    done.job_name = String::new();
    done.reasons = "media-jam-error".to_string();
    let announcement = jobs.announce_end(&done).expect("an announcement");
    assert_eq!(announcement.summary, "Printing complete");
    assert_eq!(announcement.body, "Document on Acme_Laser");
    assert_eq!(announcement.icon, "printer-symbolic");
}

#[test]
fn job_states_follow_the_ipp_numbers() {
    assert_eq!(job_state(3), JobState::Pending);
    assert_eq!(job_state(4), JobState::Held);
    assert_eq!(job_state(5), JobState::Processing);
    assert_eq!(job_state(6), JobState::Stopped);
    assert_eq!(job_state(7), JobState::Canceled);
    assert_eq!(job_state(8), JobState::Aborted);
    assert_eq!(job_state(9), JobState::Completed);
    assert_eq!(job_state(42), JobState::Unknown);
}

#[test]
fn notifications_are_read_one_group_each() {
    let attrs = vec![
        IppAttribute {
            name: Some("attributes-charset".to_string()),
            group: IppGroup::Operation,
            text: Some("utf-8".to_string()),
            integer: 0,
        },
        separator(),
        text("notify-subscribed-event", "job-completed"),
        text("printer-name", "Acme"),
        integer("notify-sequence-number", 4),
        integer("job-id", 12),
        integer("job-state", 9),
        separator(),
        text("notify-subscribed-event", "printer-deleted"),
        text("printer-name", "Old"),
        integer("notify-sequence-number", 7),
        text("printer-state-reasons", "none"),
    ];
    let notifications = read_notifications(&attrs);
    assert_eq!(notifications.len(), 2);
    assert_eq!(notifications[0].event, "job-completed");
    assert_eq!(notifications[0].job_id, 12);
    assert_eq!(notifications[1].printer, "Old");
    assert_eq!(notifications[1].reasons, "none");
    assert_eq!(highest_sequence(&notifications), 7);
    assert_eq!(next_sequence(1, 7), 8);
    assert_eq!(next_sequence(9, 7), 9);
}

#[test]
fn printers_coming_and_going_are_announced() {
    let gone = printer_removed("Acme");
    assert_eq!(gone.summary, "Printer removed");
    assert_eq!(gone.body, "Acme");
    assert_eq!(printer_available("Acme", Some("Office")).body, "Acme — Office");
    assert_eq!(printer_available("Acme", Some("  ")).body, "Acme");
    assert_eq!(printer_available("Acme", None).body, "Acme");
}
