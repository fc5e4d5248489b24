use printers::entry::PrinterEntry;
use printers::reconcile::{
    advertisement_overdue, describe, find_destination, last_path_segment, reconcile_pending,
    PendingConfigurationState, PendingPaConfiguration, ADVERTISEMENT_TIMEOUT_MS,
};

fn pending(uuid: Option<&str>, uri: Option<&str>, name: &str) -> PendingPaConfiguration {
    PendingPaConfiguration {
        operation_id: "operation".into(),
        printer_application_id: "pa-a".into(),
        physical_printer_id: "physical:serial:ABC123".into(),
        candidate_id: "pa-a:1:0".into(),
        configured_printer_name: name.into(),
        expected_printer_uri: uri.map(ToString::to_string),
        expected_printer_uuid: uuid.map(ToString::to_string),
        application_endpoint: Some(("localhost".into(), 8000)),
        web_interface_uri: None,
        created_at_ms: 0,
        state: PendingConfigurationState::AwaitingAdvertisement,
    }
}

fn destination(id: &str, options: &[(&str, &str)]) -> PrinterEntry {
    PrinterEntry::new(
        id,
        id,
        false,
        options
            .iter()
            .map(|(name, value)| ((*name).to_string(), (*value).to_string()))
            .collect(),
    )
}

#[test]
fn reconciles_by_created_printer_uuid() {
    let pending = pending(
        Some("urn:uuid:11111111-2222-3333-4444-555555555555"),
        None,
        "Acme_Laser",
    );
    let destinations = vec![
        destination(
            "Other",
            &[("printer-uuid", "urn:uuid:99999999-0000-0000-0000-000000000000")],
        ),
        destination(
            "Acme_Laser",
            &[("printer-uuid", "11111111-2222-3333-4444-555555555555")],
        ),
    ];

    assert_eq!(
        find_destination(&pending, &destinations).map(|d| d.id.as_str()),
        Some("Acme_Laser")
    );
}

#[test]
fn reconciles_by_exact_printer_uri() {
    let pending = pending(
        None,
        Some("ipps://localhost:8000/ipp/print/Acme_Laser"),
        "Acme_Laser",
    );
    let destinations = vec![destination(
        "queue",
        &[(
            "printer-uri-supported",
            "ipps://localhost:8000/ipp/print/Acme_Laser/",
        )],
    )];

    assert_eq!(
        find_destination(&pending, &destinations).map(|d| d.id.as_str()),
        Some("queue")
    );
}

#[test]
fn reconciles_by_application_endpoint_and_printer_name() {
    let pending = pending(None, None, "Acme_Laser");
    let destinations = vec![
        destination(
            "other",
            &[("device-uri", "ipp://localhost:8001/ipp/print/Acme_Laser")],
        ),
        destination(
            "wanted",
            &[("device-uri", "ipp://localhost:8000/ipp/print/Acme_Laser")],
        ),
    ];

    assert_eq!(
        find_destination(&pending, &destinations).map(|d| d.id.as_str()),
        Some("wanted")
    );
}

#[test]
fn a_matching_display_name_alone_is_not_enough() {
    let mut pending = pending(None, None, "Acme_Laser");
    pending.application_endpoint = None;
    let destinations = vec![destination(
        "unrelated-queue",
        &[("printer-info", "Acme_Laser")],
    )];

    assert!(find_destination(&pending, &destinations).is_none());
}

#[test]
fn a_uuid_that_does_not_appear_does_not_fall_through_to_a_wrong_match() {
    let pending = pending(
        Some("11111111-2222-3333-4444-555555555555"),
        None,
        "Acme_Laser",
    );
    let destinations = vec![destination(
        "Acme_Laser",
        &[("printer-uuid", "99999999-0000-0000-0000-000000000000")],
    )];

    assert_eq!(
        find_destination(&pending, &destinations).map(|d| d.id.as_str()),
        Some("Acme_Laser")
    );
}

#[test]
fn nothing_matches_an_empty_destination_list() {
    let pending = pending(Some("uuid"), Some("ipps://localhost:8000/x"), "Acme_Laser");

    assert!(find_destination(&pending, &Vec::new()).is_none());
}

#[test]
fn loopback_spellings_are_treated_as_one_host() {
    let pending = pending(None, None, "Acme_Laser");
    let destinations = vec![destination(
        "wanted",
        &[("device-uri", "ipp://127.0.0.1:8000/ipp/print/Acme_Laser")],
    )];

    assert_eq!(
        find_destination(&pending, &destinations).map(|d| d.id.as_str()),
        Some("wanted")
    );
}

#[test]
fn only_unfinished_attempts_wait_for_a_destination() {
    assert!(PendingConfigurationState::AwaitingAdvertisement.is_awaiting());
    assert!(!PendingConfigurationState::AlreadyConfigured.is_awaiting());
    assert!(!PendingConfigurationState::Reconciled {
        destination_id: "queue".into()
    }
    .is_awaiting());
    assert!(!PendingConfigurationState::UnknownOutcome.is_awaiting());
    assert!(!PendingConfigurationState::ManualActionRequired.is_awaiting());
}

#[test]
fn a_queue_name_is_read_up_to_the_first_slash() {
    let pending = pending(None, None, "acme_laser");
    let mut no_endpoint = pending.clone();
    no_endpoint.application_endpoint = None;
    let destinations = vec![destination("Acme_Laser/instance", &[])];
    assert_eq!(
        find_destination(&no_endpoint, &destinations).map(|d| d.id.as_str()),
        Some("Acme_Laser/instance")
    );
}

#[test]
fn an_attempt_stops_waiting_after_a_while() {
    let mut waiting = pending(None, None, "Acme");
    waiting.created_at_ms = 1_000;
    assert!(!advertisement_overdue(&waiting, 90_999));
    assert!(advertisement_overdue(&waiting, 91_000));
    waiting.state = PendingConfigurationState::UnknownOutcome;
    assert!(!advertisement_overdue(&waiting, 500_000));
}

#[test]
fn the_last_path_segment_names_the_queue() {
    assert_eq!(
        last_path_segment("ipp://host:8000/ipp/print/Acme/?x=1").as_deref(),
        Some("Acme")
    );
    assert_eq!(last_path_segment("ipp://host:8000"), None);
    assert_eq!(
        describe(&pending(None, None, "Acme")),
        "operation operation for candidate pa-a:1:0 of printer physical:serial:ABC123 in application pa-a"
    );
}

#[test]
fn waiting_attempts_are_matched_to_the_destination_that_shows_them() {
    let mut attempts = vec![
        pending(Some("11111111-2222-3333-4444-555555555555"), None, "Acme_Laser"),
        pending(None, None, "Elsewhere"),
    ];
    attempts[1].operation_id = "second".into();
    let destinations = vec![destination(
        "Acme_Laser",
        &[("printer-uuid", "urn:uuid:11111111-2222-3333-4444-555555555555")],
    )];

    let changed = reconcile_pending(&mut attempts, &destinations, 1_000);

    assert!(changed);
    assert_eq!(
        attempts[0].state,
        PendingConfigurationState::Reconciled {
            destination_id: "Acme_Laser".into()
        }
    );
    assert_eq!(attempts[1].state, PendingConfigurationState::AwaitingAdvertisement);
    assert_eq!(attempts[1].operation_id, "second");
}

#[test]
fn an_attempt_never_advertised_needs_finishing_by_hand() {
    let mut attempts = vec![pending(None, None, "Acme_Laser")];

    assert!(!reconcile_pending(&mut attempts, &Vec::new(), ADVERTISEMENT_TIMEOUT_MS - 1));
    assert_eq!(attempts[0].state, PendingConfigurationState::AwaitingAdvertisement);

    assert!(reconcile_pending(&mut attempts, &Vec::new(), ADVERTISEMENT_TIMEOUT_MS));
    assert_eq!(attempts[0].state, PendingConfigurationState::ManualActionRequired);
}

#[test]
fn settled_attempts_are_left_as_they_are() {
    let mut settled = pending(None, None, "Acme_Laser");
    settled.state = PendingConfigurationState::AlreadyConfigured;
    let mut attempts = vec![settled];
    let destinations = vec![destination("Acme_Laser", &[])];

    assert!(!reconcile_pending(&mut attempts, &destinations, ADVERTISEMENT_TIMEOUT_MS * 2));
    assert_eq!(attempts[0].state, PendingConfigurationState::AlreadyConfigured);
}
