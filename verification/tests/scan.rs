use printers::scan::scan_snapshot;
use printers::scan::{configured_to_use, record_driver_answer, DriverScan};
use printers::application::{
    PrinterApplication, PrinterApplicationCapabilities, PrinterApplicationState, FIND_DEVICES,
};
use printers::client::PaError;
use printers::devices::{DeviceEvidence, DeviceTransport};
use printers::drivers::PaDriverMatch;
use printers::identity::{PaConfigurationCandidate, PaDeviceEndpoint};
use printers::printers::ConfiguredPrinter;
use printers::scan::{
    application_name, configured_devices, is_worth_asking, scan_refusal, scan_state_for,
    scan_targets, settle_answer, settle_without_asking, still_current, DriverStep,
    PrinterApplicationScanState,
};

fn candidate(uris: &[&str], device_id: Option<&str>) -> PaConfigurationCandidate {
    PaConfigurationCandidate {
        id: "pa-a:1:0".into(),
        printer_application_id: "pa-a".into(),
        endpoints: uris
            .iter()
            .map(|uri| PaDeviceEndpoint {
                device_uri: uri.to_string(),
                transport: DeviceTransport::from_uri(uri),
                preference: DeviceTransport::from_uri(uri).preference(),
            })
            .collect(),
        identity: DeviceEvidence::default(),
        display_name: "Acme".into(),
        make_and_model: None,
        device_id: device_id.map(ToString::to_string),
        driver_match: PaDriverMatch::Unchecked,
    }
}

fn configured(name: &str, device_uri: Option<&str>) -> ConfiguredPrinter {
    ConfiguredPrinter {
        printer_id: None,
        name: name.into(),
        device_uri: device_uri.map(ToString::to_string),
        printer_uri: None,
        printer_uuid: None,
        web_interface_uri: None,
    }
}

#[test]
fn a_printer_without_a_device_uri_names_no_device() {
    let pairs = configured_devices(&vec![
        configured("Office", Some("usb://Acme/Laser")),
        configured("Ghost", None),
    ]);

    assert_eq!(pairs, vec![("usb://Acme/Laser".to_string(), "Office".to_string())]);
}

#[test]
fn a_device_the_application_already_drives_is_already_configured() {
    let configured = vec![("socket://192.0.2.10".to_string(), "Office".to_string())];
    let step = settle_without_asking(
        &candidate(&["usb://Acme/Laser", "socket://192.0.2.10"], Some("MFG:Acme;")),
        &configured,
        &Vec::new(),
    );

    match step {
        DriverStep::Settled(PaDriverMatch::AlreadyConfigured { printer_name }) => {
            assert_eq!(printer_name, "Office")
        }
        _ => panic!("expected an already configured device"),
    }
}

#[test]
fn a_device_without_a_device_id_cannot_be_matched() {
    let step = settle_without_asking(&candidate(&["usb://Acme/Laser"], None), &Vec::new(), &Vec::new());

    assert!(matches!(step, DriverStep::Settled(PaDriverMatch::Unsupported)));
}

#[test]
fn a_device_id_is_asked_about_once_per_scan() {
    let device = candidate(&["usb://Acme/Laser"], Some("MFG:Acme;"));
    match settle_without_asking(&device, &Vec::new(), &Vec::new()) {
        DriverStep::Ask(device_id) => assert_eq!(device_id, "MFG:Acme;"),
        _ => panic!("expected a question"),
    }

    let checked = vec![("MFG:Acme;".to_string(), PaDriverMatch::Unsupported)];
    assert!(matches!(
        settle_without_asking(&device, &Vec::new(), &checked),
        DriverStep::Settled(PaDriverMatch::Unsupported)
    ));
}

#[test]
fn a_missing_answer_is_replaced_by_the_one_remembered() {
    let remembered = vec![("MFG:Acme;".to_string(), PaDriverMatch::Unsupported)];

    let (matched, remember) = settle_answer(PaDriverMatch::Unavailable, &remembered, "MFG:Acme;");
    assert_eq!(matched, PaDriverMatch::Unsupported);
    assert!(!remember);

    let (matched, remember) = settle_answer(PaDriverMatch::Unavailable, &remembered, "MFG:Other;");
    assert_eq!(matched, PaDriverMatch::Unavailable);
    assert!(!remember);

    let (matched, remember) =
        settle_answer(PaDriverMatch::Supported { drivers: Vec::new() }, &remembered, "MFG:Acme;");
    assert_eq!(matched, PaDriverMatch::Supported { drivers: Vec::new() });
    assert!(remember);
}

#[test]
fn scan_failures_map_to_scan_states() {
    assert_eq!(
        scan_state_for(&PaError::AuthenticationRequired),
        PrinterApplicationScanState::AuthenticationRequired
    );
    assert_eq!(
        scan_state_for(&PaError::OperationNotSupported),
        PrinterApplicationScanState::Unsupported
    );
}

fn application(hostname: &str, operations: Vec<u16>) -> PrinterApplication {
    PrinterApplication {
        id: "app".into(),
        service_name: "LPrint".into(),
        hostname: hostname.into(),
        port: 8000,
        addresses: vec!["192.0.2.1".into()],
        system_uri: format!("ipps://{hostname}:8000/ipp/system"),
        make_and_model: None,
        endpoints: Vec::new(),
        capabilities: PrinterApplicationCapabilities::from_operations(operations),
        state: PrinterApplicationState::Ready,
    }
}

#[test]
fn only_a_local_application_that_finds_devices_is_scanned() {
    assert_eq!(scan_refusal(&application("localhost", vec![FIND_DEVICES])), None);
    assert_eq!(
        scan_refusal(&application("localhost", Vec::new())),
        Some(PrinterApplicationScanState::Unsupported)
    );
    assert_eq!(
        scan_refusal(&application("printer.example", vec![FIND_DEVICES])),
        Some(PrinterApplicationScanState::Unsupported)
    );
}

#[test]
fn a_scan_from_an_older_round_is_dropped() {
    assert!(still_current(3, 3));
    assert!(!still_current(4, 3));
}

#[test]
fn a_round_asks_applications_that_find_devices_run_here_or_are_unprobed() {
    let mut remote_scanner = application("printer.example", vec![FIND_DEVICES]);
    remote_scanner.id = "remote-scanner".into();
    let mut local_nothing = application("localhost", Vec::new());
    local_nothing.id = "local".into();
    let mut remote_nothing = application("printer.example", Vec::new());
    remote_nothing.id = "remote".into();
    let mut unprobed = application("printer.example", Vec::new());
    unprobed.id = "unprobed".into();
    unprobed.state = PrinterApplicationState::Discovered;

    assert!(is_worth_asking(&remote_scanner));
    assert!(is_worth_asking(&local_nothing));
    assert!(!is_worth_asking(&remote_nothing));
    assert!(is_worth_asking(&unprobed));

    let targets = scan_targets(&vec![remote_scanner, remote_nothing, local_nothing, unprobed]);
    let ids: Vec<&str> = targets.iter().map(|(id, _)| id.as_str()).collect();
    assert_eq!(ids, vec!["remote-scanner", "local", "unprobed"]);
}

#[test]
fn an_application_is_named_by_its_make_and_model_unless_blank() {
    let mut named = application("localhost", Vec::new());
    named.make_and_model = Some("HP Printer Application".into());
    assert_eq!(application_name(&named), "HP Printer Application");

    named.make_and_model = Some("   ".into());
    assert_eq!(application_name(&named), "LPrint");

    named.make_and_model = None;
    assert_eq!(application_name(&named), "LPrint");
}

#[test]
fn a_scan_leaves_its_candidates_or_the_state_its_failure_means() {
    let (state, candidates, quarantined) = scan_snapshot(Some(Ok((vec![candidate(&["usb://A/B"], Some("MFG:A;MDL:B;"))], 2))));
    assert_eq!(state, PrinterApplicationScanState::Complete);
    assert_eq!(candidates.len(), 1);
    assert_eq!(quarantined, 2);
    let (state, candidates, quarantined) = scan_snapshot(Some(Err(PaError::OperationNotSupported)));
    assert_eq!(state, PrinterApplicationScanState::Unsupported);
    assert!(candidates.is_empty());
    assert_eq!(quarantined, 0);
    let (state, _, _) = scan_snapshot(None);
    assert_eq!(state, PrinterApplicationScanState::Failed);
}

#[test]
fn an_answer_about_a_device_id_is_recorded_once_and_remembered_only_when_it_is_the_applications() {
    let mut scan = DriverScan { checked: Vec::new(), driver_answers: Vec::new() };
    let remembered = vec![("MFG:A;MDL:B;".to_string(), PaDriverMatch::Unsupported)];
    let matched = record_driver_answer(&mut scan, "MFG:A;MDL:B;", PaDriverMatch::Unavailable, &remembered);
    assert_eq!(matched, PaDriverMatch::Unsupported);
    assert_eq!(scan.checked.len(), 1);
    assert!(scan.driver_answers.is_empty());
    let matched = record_driver_answer(&mut scan, "MFG:C;MDL:D;", PaDriverMatch::Unsupported, &remembered);
    assert_eq!(matched, PaDriverMatch::Unsupported);
    assert_eq!(scan.checked.len(), 2);
    assert_eq!(scan.driver_answers, vec![("MFG:C;MDL:D;".to_string(), PaDriverMatch::Unsupported)]);

    let remembered_devices = vec![("usb://A/B".to_string(), "A".to_string())];
    assert_eq!(configured_to_use(&None, &remembered_devices), remembered_devices);
    assert_eq!(configured_to_use(&Some(Vec::new()), &remembered_devices), Vec::<(String, String)>::new());
}
