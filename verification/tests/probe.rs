use printers::application::{
    PrinterApplication, PrinterApplicationCapabilities, PrinterApplicationState,
};
use printers::client::IppStatus;
use printers::probe::{
    apply_probe_result, needs_probe, probe_failure_id, probe_scan_state, system_probe,
    ProbeError, SystemAttributes, SystemEndpoint, SystemProbe,
};
use printers::scan::PrinterApplicationScanState;

fn application() -> PrinterApplication {
    PrinterApplication {
        id: "app".into(),
        service_name: "LPrint".into(),
        hostname: "printer.local".into(),
        port: 8000,
        addresses: vec!["192.0.2.1".into()],
        system_uri: "ipps://printer.local:8000/ipp/system".into(),
        make_and_model: None,
        endpoints: Vec::new(),
        capabilities: PrinterApplicationCapabilities::from_operations(Vec::new()),
        state: PrinterApplicationState::Discovered,
    }
}

fn probe(operations: Vec<u16>) -> SystemProbe {
    SystemProbe {
        make_and_model: Some("Example Application".into()),
        endpoints: Vec::new(),
        capabilities: PrinterApplicationCapabilities::from_operations(operations),
    }
}

const AUTOMATIC_OPERATIONS: [u16; 3] = [0x402b, 0x402c, 0x004c];

#[test]
fn probe_full_capability_support_marks_application_ready() {
    let mut application = application();
    apply_probe_result(&mut application, Ok(probe(AUTOMATIC_OPERATIONS.to_vec())));

    assert_eq!(application.state, PrinterApplicationState::Ready);
    assert!(application.capabilities.find_drivers);
    assert_eq!(
        application.make_and_model.as_deref(),
        Some("Example Application")
    );
}

#[test]
fn probe_discovery_without_creation_is_marked_discovery_only() {
    let mut application = application();
    apply_probe_result(&mut application, Ok(probe(vec![0x000b, 0x402b])));

    assert_eq!(application.state, PrinterApplicationState::DiscoveryOnly);
}

#[test]
fn probe_no_device_operations_leaves_only_manual_setup() {
    let mut application = application();
    apply_probe_result(&mut application, Ok(probe(vec![0x000b, 0x003a])));

    assert_eq!(application.state, PrinterApplicationState::ManualSetupOnly);
}

#[test]
fn probe_an_empty_operation_list_is_unsupported() {
    let mut application = application();
    apply_probe_result(&mut application, Ok(probe(Vec::new())));

    assert_eq!(application.state, PrinterApplicationState::Unsupported);
}

#[test]
fn probe_maps_probe_failures_without_removing_application() {
    for (error, expected) in [
        (
            ProbeError::AuthenticationRequired,
            PrinterApplicationState::AuthenticationRequired,
        ),
        (
            ProbeError::Unreachable {
                why: "unreachable".into(),
            },
            PrinterApplicationState::Unreachable,
        ),
        (
            ProbeError::Failed {
                why: "failed".into(),
            },
            PrinterApplicationState::Failed,
        ),
    ] {
        let mut application = application();
        apply_probe_result(&mut application, Err(error));

        assert_eq!(application.state, expected);
        assert_eq!(application.id, "app");
    }
}

fn attributes(status: IppStatus, operations: Option<Vec<i32>>) -> SystemAttributes {
    SystemAttributes {
        status,
        operations,
        mandatory_printer_attributes: Vec::new(),
        printer_creation_attributes_supported: vec!["smi55357-driver".into(), "Printer-Name".into()],
        printer_service_types_supported: Vec::new(),
        device_uri_schemes_supported: Vec::new(),
        make_and_model: Some("   ".into()),
        system_name: Some("LPrint".into()),
        endpoints: vec![
            SystemEndpoint {
                uri: "ipps://printer.local:8000/ipp/system".into(),
                authentication: None,
                security: Some("tls".into()),
            },
            SystemEndpoint {
                uri: "ipps://printer.local:8000/ipp/system".into(),
                authentication: None,
                security: Some("tls".into()),
            },
        ],
    }
}

#[test]
fn a_system_probe_reads_operations_and_falls_back_to_the_system_name() {
    let probe = system_probe(&attributes(IppStatus::Success, Some(vec![0x402b, 0x4c, 0x402b, 0x402c])))
        .unwrap();

    assert_eq!(probe.capabilities.operations_supported, vec![0x4c, 0x402b, 0x402c]);
    assert!(probe.capabilities.create_printer);
    assert_eq!(probe.make_and_model.as_deref(), Some("LPrint"));
    assert_eq!(probe.endpoints.len(), 1);
}

#[test]
fn a_probe_without_operations_fails() {
    assert_eq!(
        system_probe(&attributes(IppStatus::Success, None)).err(),
        Some(ProbeError::Failed {
            why: "Get-System-Attributes response missing operations-supported".into()
        })
    );
}

#[test]
fn a_refused_probe_asks_for_credentials() {
    assert_eq!(
        system_probe(&attributes(IppStatus::ErrorForbidden, None)).err(),
        Some(ProbeError::AuthenticationRequired)
    );
}

#[test]
fn an_unprobed_application_is_probed_before_a_scan() {
    let mut application = application();
    assert!(needs_probe(&application));

    apply_probe_result(&mut application, Ok(probe(AUTOMATIC_OPERATIONS.to_vec())));
    assert!(!needs_probe(&application));
}

#[test]
fn a_failed_probe_ends_the_applications_part_of_the_round() {
    assert_eq!(
        probe_scan_state(&ProbeError::AuthenticationRequired),
        PrinterApplicationScanState::AuthenticationRequired
    );
    assert_eq!(
        probe_scan_state(&ProbeError::Unreachable { why: "x".into() }),
        PrinterApplicationScanState::Unreachable
    );
    assert_eq!(probe_failure_id("pa-a"), "pa-a");
}

#[test]
fn a_probe_keeps_the_endpoints_it_reported_in_first_seen_order() {
    let endpoint = |uri: &str| SystemEndpoint { uri: uri.into(), authentication: None, security: None };
    let mut attrs = attributes(IppStatus::Success, Some(vec![0x402b]));
    attrs.endpoints = vec![endpoint("ipp://b/ipp/system"), endpoint("ipp://a/ipp/system"), endpoint("ipp://b/ipp/system")];
    let probe = system_probe(&attrs).expect("probe");
    let uris: Vec<&str> = probe.endpoints.iter().map(|e| e.uri.as_str()).collect();
    assert_eq!(uris, vec!["ipp://b/ipp/system", "ipp://a/ipp/system"]);
    let mut app = application();
    apply_probe_result(&mut app, Ok(probe));
    assert_eq!(app.endpoints.len(), 2);
    assert_eq!(app.endpoints[0].uri, "ipp://b/ipp/system");
}
