use printers::add_printer::{
    candidate_summary, printer_matches_search, visible_printers, Action, CandidateSummary,
    DialogNotice, DialogView, Load, Message, SetupError, State,
};
use printers::configuration::{ConfigurePrinterReply, PrinterConfigurationState};
use printers::devices::{DeviceEvidence, DeviceTransport};
use printers::drivers::{PaDriver, PaDriverMatch};
use printers::identity::{PaConfigurationCandidate, PaDeviceEndpoint};
use printers::round::{AddPrinterDiscovery, AddPrinterDiscoveryReply};
use printers::scan::PrinterApplicationScanState;

fn candidate(application: &str, serial: &str, driver_match: PaDriverMatch) -> PaConfigurationCandidate {
    PaConfigurationCandidate {
        id: format!("{application}:1:0"),
        printer_application_id: application.to_string(),
        endpoints: vec![PaDeviceEndpoint {
            device_uri: format!("socket://192.0.2.10:9100/{serial}"),
            transport: DeviceTransport::Socket,
            preference: DeviceTransport::Socket.preference(),
        }],
        identity: DeviceEvidence {
            serial_number: Some(serial.to_string()),
            ..Default::default()
        },
        display_name: "Acme Test Laser".into(),
        make_and_model: Some("Acme Test Laser".into()),
        device_id: Some(format!("MFG:Acme;MDL:Test Laser;SN:{serial};")),
        driver_match,
    }
}

fn supported() -> PaDriverMatch {
    PaDriverMatch::Supported {
        drivers: vec![PaDriver {
            id: "acme".into(),
            display_name: "Acme".into(),
            supported_device_id: None,
        }],
    }
}

fn reply(offers: Vec<(&str, PaDriverMatch)>) -> AddPrinterDiscoveryReply {
    let mut discovery = AddPrinterDiscovery::default();
    let generation = discovery.start(
        offers
            .iter()
            .map(|(app, _)| (app.to_string(), format!("{app} name")))
            .collect(),
    );
    for (app, driver_match) in offers {
        discovery.replace_snapshot(
            generation,
            app,
            PrinterApplicationScanState::Complete,
            vec![candidate(app, "ABC123", driver_match)],
            0,
        );
    }
    discovery.reply()
}

fn loaded(offers: Vec<(&str, PaDriverMatch)>) -> State {
    let mut state = State::new(Vec::new());
    state.update(Message::Loaded(Ok(Load {
        discovery: reply(offers),
        manual_setup_applications: Vec::new(),
    })));
    state
}

#[test]
fn a_printer_one_application_offers_is_set_up_at_once() {
    let mut state = loaded(vec![("pa-a", supported())]);

    match state.update(Message::SelectDiscoveredPrinter("physical:serial:ABC123".into())) {
        Action::Configure(request) => {
            assert_eq!(request.discovery_generation, 1);
            assert_eq!(request.candidate_id, "pa-a:1:0");
            assert_eq!(request.requested_display_name, None);
        }
        other => panic!("expected a configuration request, got {other:?}"),
    }
    assert_eq!(
        state.view,
        DialogView::Adding {
            printer_id: "physical:serial:ABC123".into()
        }
    );
}

#[test]
fn a_printer_two_applications_offer_asks_which_one() {
    let mut state = loaded(vec![("pa-a", supported()), ("pa-b", supported())]);

    assert!(matches!(
        state.update(Message::SelectDiscoveredPrinter("physical:serial:ABC123".into())),
        Action::Nothing
    ));
    assert_eq!(
        state.view,
        DialogView::SelectApplication {
            printer_id: "physical:serial:ABC123".into()
        }
    );

    assert!(matches!(
        state.update(Message::SelectPrinterApplication("pa-z:1:0".into())),
        Action::Nothing
    ));
    assert!(matches!(
        state.update(Message::SelectPrinterApplication("pa-b:1:0".into())),
        Action::Configure(_)
    ));
}

#[test]
fn a_printer_no_application_can_drive_leads_to_manual_setup() {
    let mut state = loaded(vec![("pa-a", PaDriverMatch::Unsupported)]);

    state.update(Message::SelectDiscoveredPrinter("physical:serial:ABC123".into()));
    assert_eq!(state.view, DialogView::ManualSetup);
}

#[test]
fn an_unknown_printer_is_reported() {
    let mut state = loaded(vec![("pa-a", supported())]);

    state.update(Message::SelectDiscoveredPrinter("physical:serial:NOPE".into()));
    assert_eq!(state.error, Some(DialogNotice::NoPrintersFound));
}

#[test]
fn nothing_is_chosen_before_discovery_loads() {
    let mut state = State::new(Vec::new());

    assert!(matches!(
        state.update(Message::SelectDiscoveredPrinter("physical:serial:ABC123".into())),
        Action::Nothing
    ));
    assert_eq!(state.view, DialogView::Discovery);
}

#[test]
fn a_created_printer_is_awaited_then_listed_as_added() {
    let mut state = loaded(vec![("pa-a", supported())]);
    state.update(Message::SelectDiscoveredPrinter("physical:serial:ABC123".into()));

    let creating = ConfigurePrinterReply {
        operation_id: "op-1".into(),
        state: PrinterConfigurationState::Creating,
        configured_printer_name: "Acme".into(),
        destination_id: None,
        web_interface_uri: None,
    };
    assert!(matches!(
        state.update(Message::PrinterSetupFinished(Ok(creating))),
        Action::RefreshPrinters
    ));
    match state.update(Message::ConfigurationChanged) {
        Action::PollConfiguration(operation) => assert_eq!(operation, "op-1"),
        other => panic!("expected a poll, got {other:?}"),
    }

    let done = ConfigurePrinterReply {
        operation_id: "op-1".into(),
        state: PrinterConfigurationState::Reconciled,
        configured_printer_name: "Acme".into(),
        destination_id: Some("Acme".into()),
        web_interface_uri: None,
    };
    assert!(matches!(
        state.update(Message::PrinterSetupFinished(Ok(done))),
        Action::RediscoverPrinters
    ));
    assert_eq!(state.view, DialogView::Added);
    assert_eq!(state.added().len(), 1);
    assert!(matches!(state.update(Message::ConfigurationChanged), Action::Nothing));
}

#[test]
fn a_failed_setup_returns_to_discovery_with_the_reason() {
    let mut state = loaded(vec![("pa-a", supported())]);
    state.update(Message::SelectDiscoveredPrinter("physical:serial:ABC123".into()));

    state.update(Message::PrinterSetupFinished(Err(SetupError::Failed("no paper".into()))));
    assert_eq!(state.view, DialogView::Discovery);
    assert_eq!(state.error, Some(DialogNotice::Failed("no paper".into())));
}

#[test]
fn manual_setup_opens_the_applications_page() {
    let mut state = loaded(vec![("pa-a", supported())]);

    match state.update(Message::PrinterSetupFinished(Err(SetupError::ManualSetup {
        web_interface_uri: Some("http://localhost:8000/".into()),
    }))) {
        Action::OpenWebPage(page) => assert_eq!(page, "http://localhost:8000/"),
        other => panic!("expected a page, got {other:?}"),
    }
    assert_eq!(state.view, DialogView::ManualSetup);

    state.update(Message::PrinterSetupFinished(Err(SetupError::ManualSetup {
        web_interface_uri: None,
    })));
    assert_eq!(state.error, Some(DialogNotice::WebInterfaceUnavailable));

    state.update(Message::WebPageOpened(Err(("http://x/".into(), "no handler".into()))));
    assert_eq!(
        state.error,
        Some(DialogNotice::OpenPageManually("http://x/".into()))
    );
}

#[test]
fn window_actions_need_the_window() {
    let mut state = State::new(Vec::new());
    assert!(matches!(state.update(Message::DragWindow), Action::Nothing));

    state.set_window_id(7);
    assert!(matches!(state.update(Message::DragWindow), Action::DragWindow(7)));
    assert!(matches!(state.update(Message::Close), Action::Close));
}

#[test]
fn a_failed_load_is_reported() {
    let mut state = State::new(Vec::new());
    state.update(Message::Loaded(Err("down".into())));

    assert_eq!(state.error, Some(DialogNotice::FailedToLoadPrinters));
    assert!(!state.is_searching());
}

#[test]
fn searching_ignores_case_and_configured_printers_are_hidden() {
    let discovery = reply(vec![("pa-a", supported())]);
    let printer = &discovery.physical_printers[0];

    assert!(printer_matches_search(printer, ""));
    assert!(printer_matches_search(printer, "laser"));
    assert!(printer_matches_search(printer, "pa-a name"));
    assert!(!printer_matches_search(printer, "inkjet"));

    assert_eq!(visible_printers(&Some(discovery.clone()), "  LASER "), vec![0]);

    let configured = reply(vec![(
        "pa-a",
        PaDriverMatch::AlreadyConfigured {
            printer_name: "Acme".into(),
        },
    )]);
    assert!(visible_printers(&Some(configured), "").is_empty());
}

#[test]
fn a_row_names_the_applications_that_can_set_it_up() {
    let both = reply(vec![("pa-a", supported()), ("pa-b", supported())]);
    assert_eq!(
        candidate_summary(&both.physical_printers[0], true),
        CandidateSummary::Names("pa-a name, pa-b name".into())
    );

    let none = reply(vec![("pa-a", PaDriverMatch::Unsupported)]);
    assert_eq!(
        candidate_summary(&none.physical_printers[0], false),
        CandidateSummary::Searching
    );
    assert_eq!(
        candidate_summary(&none.physical_printers[0], true),
        CandidateSummary::SeenWithoutDriver(1)
    );
}
