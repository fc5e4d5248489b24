use printers::application::ResolveError;
use printers::device_id::DeviceId;
use printers::devices::{DeviceEvidence, DeviceTransport};
use printers::drivers::{PaDriver, PaDriverMatch};
use printers::identity::{PaConfigurationCandidate, PaDeviceEndpoint};
use printers::round::{candidate_state, AddPrinterDiscovery, AddPrinterDiscoveryState, PaCandidateState};
use printers::scan::PrinterApplicationScanState;

fn candidate(application: &str, serial: &str, driver_match: PaDriverMatch) -> PaConfigurationCandidate {
    let device_id = DeviceId::parse(&format!("MFG:Acme;MDL:Test Laser;SN:{serial};"));
    let identity = DeviceEvidence {
        serial_number: device_id.serial_number().map(ToString::to_string),
        ..Default::default()
    };

    PaConfigurationCandidate {
        id: format!("{application}:1:0"),
        printer_application_id: application.to_string(),
        endpoints: vec![PaDeviceEndpoint {
            device_uri: format!("socket://192.0.2.10:9100/{serial}"),
            transport: DeviceTransport::Socket,
            preference: DeviceTransport::Socket.preference(),
        }],
        identity,
        display_name: "Acme Test Laser".into(),
        make_and_model: Some("Acme Test Laser".into()),
        device_id: Some(device_id.raw().to_string()),
        driver_match,
    }
}

fn supported() -> PaDriverMatch {
    PaDriverMatch::Supported {
        drivers: vec![PaDriver {
            id: "acme-laser".into(),
            display_name: "Acme Laser".into(),
            supported_device_id: None,
        }],
    }
}

fn discovery_with_two_applications() -> AddPrinterDiscovery {
    let mut discovery = AddPrinterDiscovery::default();
    discovery.start(vec![
        ("pa-a".to_string(), "LPrint".to_string()),
        ("pa-b".to_string(), "PostScript".to_string()),
    ]);
    discovery
}

#[test]
fn each_round_gets_a_new_generation() {
    let mut discovery = AddPrinterDiscovery::default();

    assert_eq!(discovery.generation(), 0);
    assert_eq!(discovery.start(vec![("pa-a".into(), "LPrint".into())]), 1);
    assert_eq!(discovery.start(vec![("pa-a".into(), "LPrint".into())]), 2);
}

#[test]
fn a_round_with_no_applications_is_complete_immediately() {
    let mut discovery = AddPrinterDiscovery::default();
    discovery.start(Vec::new());

    let reply = discovery.reply();
    assert_eq!(reply.state, AddPrinterDiscoveryState::Complete);
    assert_eq!(reply.total_printer_application_scans, 0);
    assert!(reply.physical_printers.is_empty());
}

#[test]
fn an_application_arriving_late_joins_the_round_that_found_nothing() {
    let mut discovery = AddPrinterDiscovery::default();
    let generation = discovery.start(Vec::new());

    assert_eq!(
        discovery.join("pa-a".into(), "LPrint".into()),
        Some(generation)
    );

    let reply = discovery.reply();
    assert_eq!(reply.generation, generation);
    assert_eq!(reply.state, AddPrinterDiscoveryState::Searching);
    assert_eq!(reply.total_printer_application_scans, 1);
}

#[test]
fn joining_keeps_the_generation_and_the_rows_already_found() {
    let mut discovery = discovery_with_two_applications();
    let generation = discovery.generation();
    discovery.replace_snapshot(
        generation,
        "pa-a",
        PrinterApplicationScanState::Complete,
        vec![candidate("pa-a", "ABC123", supported())],
        0,
    );

    assert_eq!(
        discovery.join("pa-c".into(), "Gutenprint".into()),
        Some(generation)
    );

    let reply = discovery.reply();
    assert_eq!(reply.generation, generation);
    assert_eq!(reply.physical_printers.len(), 1);
    assert_eq!(reply.total_printer_application_scans, 3);
}

#[test]
fn an_application_already_in_the_round_does_not_join_twice() {
    let mut discovery = discovery_with_two_applications();

    assert_eq!(discovery.join("pa-a".into(), "LPrint".into()), None);
    assert_eq!(discovery.reply().total_printer_application_scans, 2);
}

#[test]
fn an_application_does_not_join_before_any_round_has_run() {
    let mut discovery = AddPrinterDiscovery::default();

    assert_eq!(discovery.join("pa-a".into(), "LPrint".into()), None);
    assert_eq!(discovery.reply().state, AddPrinterDiscoveryState::Idle);
}

#[test]
fn results_appear_as_each_application_answers() {
    let mut discovery = discovery_with_two_applications();
    let generation = discovery.generation();

    assert!(discovery.replace_snapshot(
        generation,
        "pa-a",
        PrinterApplicationScanState::Complete,
        vec![candidate("pa-a", "ABC123", supported())],
        0,
    ));

    let reply = discovery.reply();
    assert_eq!(reply.state, AddPrinterDiscoveryState::Searching);
    assert_eq!(reply.completed_printer_application_scans, 1);
    assert_eq!(reply.total_printer_application_scans, 2);
    assert_eq!(reply.physical_printers.len(), 1);
    assert!(!reply.cached);
}

#[test]
fn two_applications_finding_one_printer_produce_one_row_with_two_candidates() {
    let mut discovery = discovery_with_two_applications();
    let generation = discovery.generation();

    discovery.replace_snapshot(
        generation,
        "pa-a",
        PrinterApplicationScanState::Complete,
        vec![candidate("pa-a", "ABC123", supported())],
        0,
    );
    discovery.replace_snapshot(
        generation,
        "pa-b",
        PrinterApplicationScanState::Complete,
        vec![candidate("pa-b", "ABC123", supported())],
        0,
    );

    let reply = discovery.reply();
    assert_eq!(reply.state, AddPrinterDiscoveryState::Complete);
    assert_eq!(reply.physical_printers.len(), 1);
    assert_eq!(reply.physical_printers[0].candidates.len(), 2);
    assert_eq!(
        reply.physical_printers[0].candidates[0].printer_application_name,
        "LPrint"
    );
}

#[test]
fn one_failure_does_not_hide_the_other_results() {
    let mut discovery = discovery_with_two_applications();
    let generation = discovery.generation();

    discovery.replace_snapshot(
        generation,
        "pa-a",
        PrinterApplicationScanState::Complete,
        vec![candidate("pa-a", "ABC123", supported())],
        0,
    );
    discovery.replace_snapshot(
        generation,
        "pa-b",
        PrinterApplicationScanState::Unreachable,
        Vec::new(),
        0,
    );

    let reply = discovery.reply();
    assert_eq!(reply.state, AddPrinterDiscoveryState::CompleteWithErrors);
    assert!(reply.any_printer_application_failed);
    assert_eq!(reply.physical_printers.len(), 1);
}

#[test]
fn an_identical_result_emits_no_further_change() {
    let mut discovery = discovery_with_two_applications();
    let generation = discovery.generation();
    let candidates = vec![candidate("pa-a", "ABC123", supported())];

    assert!(discovery.replace_snapshot(
        generation,
        "pa-a",
        PrinterApplicationScanState::Complete,
        candidates.iter().map(|c| c.duplicate()).collect(),
        0,
    ));
    assert!(!discovery.replace_snapshot(
        generation,
        "pa-a",
        PrinterApplicationScanState::Complete,
        candidates,
        0,
    ));
}

#[test]
fn a_task_from_an_abandoned_round_cannot_write_results() {
    let mut discovery = discovery_with_two_applications();
    let stale = discovery.generation();
    discovery.start(vec![("pa-a".into(), "LPrint".into())]);

    assert!(!discovery.replace_snapshot(
        stale,
        "pa-a",
        PrinterApplicationScanState::Complete,
        vec![candidate("pa-a", "ABC123", supported())],
        0,
    ));
    assert!(!discovery.mark_searching(stale, "pa-a"));
}

#[test]
fn previous_rows_are_shown_as_cached_until_fresh_ones_arrive() {
    let mut discovery = discovery_with_two_applications();
    let generation = discovery.generation();
    discovery.replace_snapshot(
        generation,
        "pa-a",
        PrinterApplicationScanState::Complete,
        vec![candidate("pa-a", "ABC123", supported())],
        0,
    );

    discovery.start(vec![("pa-a".into(), "LPrint".into())]);

    let reply = discovery.reply();
    assert!(reply.cached);
    assert_eq!(reply.physical_printers.len(), 1);
}

#[test]
fn a_cached_row_cannot_be_selected() {
    let mut discovery = discovery_with_two_applications();
    let first = discovery.generation();
    discovery.replace_snapshot(
        first,
        "pa-a",
        PrinterApplicationScanState::Complete,
        vec![candidate("pa-a", "ABC123", supported())],
        0,
    );
    let row = discovery.reply().physical_printers[0].clone();

    let second = discovery.start(vec![("pa-a".into(), "LPrint".into())]);

    assert_eq!(
        discovery
            .resolve(second, &row.id, &row.candidates[0].id)
            .err(),
        Some(ResolveError::PrinterNotFound)
    );
}

#[test]
fn a_stale_generation_is_refused() {
    let mut discovery = discovery_with_two_applications();
    let stale = discovery.generation();
    discovery.replace_snapshot(
        stale,
        "pa-a",
        PrinterApplicationScanState::Complete,
        vec![candidate("pa-a", "ABC123", supported())],
        0,
    );
    let row = discovery.reply().physical_printers[0].clone();
    let current = discovery.start(vec![("pa-a".into(), "LPrint".into())]);

    assert_eq!(
        discovery
            .resolve(stale, &row.id, &row.candidates[0].id)
            .err(),
        Some(ResolveError::Expired {
            generation: current
        })
    );
}

#[test]
fn a_candidate_from_another_row_is_refused() {
    let mut discovery = discovery_with_two_applications();
    let generation = discovery.generation();
    discovery.replace_snapshot(
        generation,
        "pa-a",
        PrinterApplicationScanState::Complete,
        vec![
            candidate("pa-a", "FIRST", supported()),
            candidate("pa-b", "SECOND", supported()),
        ],
        0,
    );

    let reply = discovery.reply();
    assert_eq!(reply.physical_printers.len(), 2);
    let first = &reply.physical_printers[0];
    let second = &reply.physical_printers[1];

    assert_eq!(
        discovery
            .resolve(generation, &first.id, &second.candidates[0].id)
            .err(),
        Some(ResolveError::CandidateNotFound)
    );
}

#[test]
fn resolving_before_discovery_starts_says_so() {
    let discovery = AddPrinterDiscovery::default();

    assert_eq!(
        discovery
            .resolve(0, "physical:serial:ABC123", "pa-a:1:0")
            .err(),
        Some(ResolveError::NotStarted)
    );
}

#[test]
fn an_application_that_disappears_takes_only_its_own_candidates() {
    let mut discovery = discovery_with_two_applications();
    let generation = discovery.generation();
    discovery.replace_snapshot(
        generation,
        "pa-a",
        PrinterApplicationScanState::Complete,
        vec![candidate("pa-a", "FIRST", supported())],
        0,
    );
    discovery.replace_snapshot(
        generation,
        "pa-b",
        PrinterApplicationScanState::Complete,
        vec![candidate("pa-b", "SECOND", supported())],
        0,
    );
    assert_eq!(discovery.reply().physical_printers.len(), 2);

    assert!(discovery.remove_application("pa-a"));

    let reply = discovery.reply();
    assert_eq!(reply.physical_printers.len(), 1);
    assert_eq!(reply.total_printer_application_scans, 1);
    assert!(discovery.candidate_is_current("pa-b:1:0"));
    assert!(!discovery.candidate_is_current("pa-a:1:0"));
}

#[test]
fn candidate_states_reflect_driver_support() {
    assert_eq!(candidate_state(&supported()), PaCandidateState::Ready);
    assert_eq!(
        candidate_state(&PaDriverMatch::Unsupported),
        PaCandidateState::Unsupported
    );
    assert_eq!(
        candidate_state(&PaDriverMatch::MalformedResponse),
        PaCandidateState::DriverUnknown
    );
}

#[test]
fn a_selection_in_the_current_round_resolves_to_its_candidate() {
    let mut discovery = discovery_with_two_applications();
    let generation = discovery.generation();
    discovery.replace_snapshot(
        generation,
        "pa-a",
        PrinterApplicationScanState::Complete,
        vec![candidate("pa-a", "ABC123", supported())],
        0,
    );

    let found = discovery
        .resolve(generation, "physical:serial:ABC123", "pa-a:1:0")
        .unwrap();
    assert_eq!(found.printer_application_id, "pa-a");
}

#[test]
fn a_broken_scan_keeps_what_the_application_last_reported() {
    let mut discovery = discovery_with_two_applications();
    let generation = discovery.generation();
    discovery.replace_snapshot(
        generation,
        "pa-a",
        PrinterApplicationScanState::Complete,
        vec![candidate("pa-a", "ABC123", supported())],
        0,
    );

    assert!(discovery.replace_snapshot(
        generation,
        "pa-a",
        PrinterApplicationScanState::Failed,
        Vec::new(),
        0,
    ));
    assert!(discovery.candidate_is_current("pa-a:1:0"));
    assert_eq!(discovery.reply().physical_printers.len(), 1);
}

#[test]
fn marking_an_application_searching_happens_once() {
    let mut discovery = discovery_with_two_applications();
    let generation = discovery.generation();

    assert!(discovery.mark_searching(generation, "pa-a"));
    assert!(!discovery.mark_searching(generation, "pa-a"));
    assert!(!discovery.mark_searching(generation, "pa-z"));
    assert_eq!(
        discovery.reply().printer_application_scans[0].state,
        PrinterApplicationScanState::Searching
    );
}

#[test]
fn the_rows_of_a_round_carry_their_identifier_into_the_next() {
    let mut discovery = discovery_with_two_applications();
    let generation = discovery.generation();
    discovery.replace_snapshot(
        generation,
        "pa-a",
        PrinterApplicationScanState::Complete,
        vec![candidate("pa-a", "ABC123", supported())],
        0,
    );
    let next = discovery.start(vec![("pa-a".into(), "LPrint".into())]);
    discovery.replace_snapshot(
        next,
        "pa-a",
        PrinterApplicationScanState::Complete,
        vec![candidate("pa-a", "ABC123", supported())],
        0,
    );

    let reply = discovery.reply();
    assert!(!reply.cached);
    assert_eq!(reply.physical_printers[0].id, "physical:serial:ABC123");
}

#[test]
fn an_identical_broken_scan_report_changes_nothing_and_keeps_the_cache() {
    let mut discovery = discovery_with_two_applications();
    let generation = discovery.generation();
    assert!(discovery.replace_snapshot(
        generation,
        "pa-a",
        PrinterApplicationScanState::Complete,
        vec![candidate("pa-a", "ABC123", supported())],
        0,
    ));
    assert!(discovery.replace_snapshot(generation, "pa-a", PrinterApplicationScanState::Unreachable, Vec::new(), 0));
    assert!(!discovery.replace_snapshot(generation, "pa-a", PrinterApplicationScanState::Unreachable, Vec::new(), 0));
    let kept = discovery
        .snapshots()
        .iter()
        .find(|snapshot| snapshot.printer_application_id == "pa-a")
        .map(|snapshot| snapshot.candidates.len());
    assert_eq!(kept, Some(1));
}
