use printers::application::{
    application_web_interface, configuration_error, operation_error, resolve_error,
    validate_web_interface, PrinterApplication, PrinterApplicationCapabilities,
    PrinterApplicationState, ResolveError, CREATE_PRINTER, FIND_DEVICES, FIND_DRIVERS,
    GET_PRINTERS,
};
use printers::client::{IppResponse, IppStatus, PaError};
use printers::configuration::{
    finish_configuration, operation_id, prepare_configuration, ConfigureDiscoveredPrinterRequest,
    PrinterConfigurationState,
};
use printers::identity::{PaConfigurationCandidate, PaDeviceEndpoint};
use printers::create::{
    after_create_reply, create_printer_attributes, created_or_rejected, plan_creation,
    route_settles, routes_exhausted, unsupported_attributes, CreateOutcome, CreatePrinterRequest,
    CreateStep, CreationPlan, PrinterToCreate, DEVICE_URI, DRIVER,
};
use printers::devices::DeviceTransport;
use printers::drivers::{PaDriver, PaDriverMatch};
use printers::errors::Error;
use printers::ipp::{IppAttribute, IppGroup, ValueTag};
use printers::printers::ConfiguredPrinter;
use printers::reconcile::PendingConfigurationState;

fn application(system_uri: &str, hostname: &str, port: u16) -> PrinterApplication {
    let addresses = if hostname == "localhost" {
        vec!["127.0.0.1".to_string()]
    } else {
        vec!["192.0.2.10".to_string()]
    };
    PrinterApplication {
        id: "app".into(),
        service_name: "LPrint".into(),
        hostname: hostname.into(),
        port,
        addresses,
        system_uri: system_uri.into(),
        make_and_model: None,
        endpoints: Vec::new(),
        capabilities: PrinterApplicationCapabilities::from_operations(vec![
            FIND_DEVICES,
            FIND_DRIVERS,
            CREATE_PRINTER,
            GET_PRINTERS,
        ]),
        state: PrinterApplicationState::Ready,
    }
}

fn request(name: Option<&str>) -> ConfigureDiscoveredPrinterRequest {
    ConfigureDiscoveredPrinterRequest {
        discovery_generation: 4,
        physical_printer_id: "physical:serial:ABC".into(),
        candidate_id: "app:4:0".into(),
        requested_display_name: name.map(ToString::to_string),
    }
}

fn candidate(driver_match: PaDriverMatch) -> PaConfigurationCandidate {
    PaConfigurationCandidate {
        id: "app:4:0".into(),
        printer_application_id: "app".into(),
        endpoints: vec![
            PaDeviceEndpoint {
                device_uri: "usb://Acme/Laser".into(),
                transport: DeviceTransport::Usb,
                preference: 0,
            },
            PaDeviceEndpoint {
                device_uri: "socket://192.0.2.20".into(),
                transport: DeviceTransport::Socket,
                preference: 40,
            },
        ],
        identity: Default::default(),
        display_name: "Acme Laser (USB)".into(),
        make_and_model: Some("Acme Laser 9000".into()),
        device_id: Some("MFG:Acme;MDL:Laser 9000;".into()),
        driver_match,
    }
}

fn driver(id: &str) -> PaDriver {
    PaDriver { id: id.into(), display_name: id.into(), supported_device_id: None }
}

fn create_request(accepted: Vec<String>) -> CreatePrinterRequest {
    CreatePrinterRequest {
        printer_name: "Acme_Laser".into(),
        printer_info: Some("Acme Laser".into()),
        device_uri: "usb://Acme/Laser".into(),
        driver: "auto".into(),
        device_id: Some("MFG:Acme;".into()),
        accepted_attributes: accepted,
    }
}

fn unsupported(name: &str) -> IppAttribute {
    IppAttribute {
        name: Some(name.into()),
        group: IppGroup::Unsupported,
        text: None,
        integer: 0,
    }
}

#[test]
fn web_a_local_application_gets_a_plain_loopback_page() {
    let application = application("ipps://desktop.local:8000/ipp/system", "localhost", 8000);

    assert_eq!(
        application_web_interface(&application).as_deref(),
        Some("http://localhost:8000/")
    );
}

#[test]
fn a_local_application_gets_a_plain_loopback_page() {
    web_a_local_application_gets_a_plain_loopback_page();
}

#[test]
fn web_a_remote_secure_service_keeps_its_host_and_scheme() {
    let application = application("ipps://printer.local:8000/ipp/system", "printer.local", 8000);

    assert_eq!(
        application_web_interface(&application).as_deref(),
        Some("https://printer.local:8000/")
    );
}

#[test]
fn a_remote_secure_service_keeps_its_host_and_scheme() {
    web_a_remote_secure_service_keeps_its_host_and_scheme();
}

#[test]
fn web_the_page_is_never_the_system_service_path() {
    let application = application("ipps://printer.local:8000/ipp/system", "printer.local", 8000);
    let page = application_web_interface(&application).expect("a page");

    assert!(!page.contains("/ipp/system"));
    assert_ne!(page, application.system_uri);
}

#[test]
fn the_page_is_never_the_system_service_path() {
    web_the_page_is_never_the_system_service_path();
}

#[test]
fn web_an_application_without_a_hostname_has_no_page() {
    let application = application("ipp://:8000/ipp/system", "  ", 8000);

    assert_eq!(application_web_interface(&application), None);
}

#[test]
fn an_application_without_a_hostname_has_no_page() {
    web_an_application_without_a_hostname_has_no_page();
}

#[test]
fn web_only_web_schemes_are_accepted() {
    assert!(validate_web_interface("http://printer.local:8000/").is_some());
    assert!(validate_web_interface(" https://printer.local/admin ").is_some());
    assert!(validate_web_interface("ipp://printer.local/ipp/system").is_none());
    assert!(validate_web_interface("file:///etc/passwd").is_none());
    assert!(validate_web_interface("javascript:alert(1)").is_none());
    assert!(validate_web_interface("not a uri").is_none());
}

#[test]
fn only_web_schemes_are_accepted() {
    web_only_web_schemes_are_accepted();
}

#[test]
fn optional_attributes_are_sent_only_where_accepted() {
    let everything = create_printer_attributes(&create_request(vec![]));
    let names: Vec<&str> = everything.iter().map(|a| a.name).collect();
    assert_eq!(
        names,
        [
            "printer-service-type",
            DEVICE_URI,
            DRIVER,
            "printer-name",
            "printer-device-id",
            "printer-info"
        ]
    );
    assert_eq!(everything[0].group, IppGroup::Operation);
    assert_eq!(everything[0].value, "print");
    assert_eq!(everything[1].tag, ValueTag::Uri);
    assert_eq!(everything[3].group, IppGroup::Printer);

    let only_info = create_printer_attributes(&create_request(vec!["printer-info".into()]));
    let names: Vec<&str> = only_info.iter().map(|a| a.name).collect();
    assert_eq!(names, ["printer-service-type", DEVICE_URI, DRIVER, "printer-name", "printer-info"]);
}

#[test]
fn a_refused_device_uri_is_a_refused_route() {
    let refused = CreateOutcome::Rejected {
        status: "ErrorBadRequest (0x0400)".into(),
        why: String::new(),
        unsupported_attributes: vec![DEVICE_URI.into()],
    };
    assert!(refused.device_route_was_refused());
    assert!(!route_settles(&Ok(refused)));
    assert!(!route_settles(&Err(PaError::Unreachable { why: "gone".into() })));
    assert!(route_settles(&Err(PaError::AuthenticationRequired)));
    assert!(route_settles(&Ok(CreateOutcome::AlreadyConfigured { printer_name: "x".into() })));
    assert!(matches!(routes_exhausted(None), Err(PaError::Malformed { .. })));
}

#[test]
fn unsupported_attributes_are_sorted_and_listed_once() {
    let attrs = vec![unsupported(DRIVER), unsupported(DEVICE_URI), unsupported(DRIVER)];
    assert_eq!(unsupported_attributes(&attrs), vec![DEVICE_URI.to_string(), DRIVER.to_string()]);
}

#[test]
fn a_lost_reply_is_looked_into_before_anything_else() {
    let step = after_create_reply(
        &create_request(vec![]),
        Err(PaError::Unreachable { why: "timeout".into() }),
    );
    assert!(matches!(
        step,
        CreateStep::LookForExisting(CreateOutcome::UnknownOutcome { ref printer_name, .. })
            if printer_name == "Acme_Laser"
    ));

    let rejected = IppResponse {
        status: IppStatus::ErrorBadRequest,
        code: 0x0400,
        attributes: vec![unsupported(DRIVER)],
    };
    assert!(matches!(
        after_create_reply(&create_request(vec![]), Ok(rejected)),
        CreateStep::LookForExisting(CreateOutcome::Rejected { .. })
    ));

    let created = IppResponse {
        status: IppStatus::Success,
        code: 0,
        attributes: vec![IppAttribute {
            name: Some("printer-uuid".into()),
            group: IppGroup::Printer,
            text: Some("urn:uuid:1".into()),
            integer: 0,
        }],
    };
    match after_create_reply(&create_request(vec![]), Ok(created)) {
        CreateStep::Finished(Ok(CreateOutcome::Created { printer_name, printer_uuid, printer_uri })) => {
            assert_eq!(printer_name, "Acme_Laser");
            assert_eq!(printer_uuid.as_deref(), Some("urn:uuid:1"));
            assert_eq!(printer_uri, None);
        }
        other => panic!("unexpected {other:?}"),
    }
}

#[test]
fn a_created_printer_is_found_by_its_device_uri() {
    let existing = vec![ConfiguredPrinter {
        printer_id: None,
        name: "Acme_Laser_2".into(),
        device_uri: Some("usb://Acme/Laser".into()),
        printer_uri: Some("ipp://localhost:8000/ipp/print/Acme_Laser_2".into()),
        printer_uuid: None,
        web_interface_uri: None,
    }];
    let otherwise = CreateOutcome::UnknownOutcome { printer_name: "Acme_Laser".into(), why: "x".into() };
    match created_or_rejected(&create_request(vec![]), Ok(existing), otherwise) {
        CreateOutcome::Created { printer_name, .. } => assert_eq!(printer_name, "Acme_Laser_2"),
        other => panic!("unexpected {other:?}"),
    }
    let otherwise = CreateOutcome::UnknownOutcome { printer_name: "Acme_Laser".into(), why: "x".into() };
    assert!(matches!(
        created_or_rejected(&create_request(vec![]), Err(PaError::AuthenticationRequired), otherwise),
        CreateOutcome::UnknownOutcome { .. }
    ));
}

#[test]
fn a_device_already_set_up_is_not_set_up_twice() {
    let printer = PrinterToCreate {
        driver: "auto".into(),
        device_id: None,
        queue_source: "Acme Laser 9000".into(),
        display_name: "Acme Laser".into(),
        accepted_attributes: vec![],
        supports_get_printers: true,
    };
    let existing = vec![ConfiguredPrinter {
        printer_id: Some(3),
        name: "Acme".into(),
        device_uri: Some("usb://Acme/Laser".into()),
        printer_uri: None,
        printer_uuid: None,
        web_interface_uri: None,
    }];
    assert!(matches!(
        plan_creation(&existing, "usb://Acme/Laser", &printer),
        Ok(CreationPlan::Settled(CreateOutcome::AlreadyConfigured { ref printer_name })) if printer_name == "Acme"
    ));
    match plan_creation(&existing, "socket://192.0.2.20", &printer) {
        Ok(CreationPlan::Send(request)) => {
            assert_eq!(request.printer_name, "Acme_Laser_9000");
            assert_eq!(request.printer_info.as_deref(), Some("Acme Laser"));
            assert_eq!(request.device_uri, "socket://192.0.2.20");
        }
        other => panic!("unexpected {other:?}"),
    }
}

#[test]
fn a_selection_is_checked_before_anything_is_sent() {
    let app = application("ipps://printer.local:8000/ipp/system", "printer.local", 8000);
    let prepared = prepare_configuration(
        &app,
        &candidate(PaDriverMatch::Supported { drivers: vec![driver("acme")] }),
        &request(Some("  ")),
    )
    .expect("prepared");
    assert_eq!(prepared.printer.driver, "acme");
    assert_eq!(prepared.printer.queue_source, "Acme Laser 9000");
    assert_eq!(prepared.printer.display_name, "Acme Laser (USB)");
    assert_eq!(prepared.routes, vec!["usb://Acme/Laser", "socket://192.0.2.20"]);

    let named = prepare_configuration(
        &app,
        &candidate(PaDriverMatch::Supported { drivers: vec![driver("a"), driver("b")] }),
        &request(Some("Front Desk")),
    )
    .expect("prepared");
    assert_eq!(named.printer.driver, "auto");
    assert_eq!(named.printer.queue_source, "Front Desk");

    assert!(matches!(
        prepare_configuration(&app, &candidate(PaDriverMatch::Unsupported), &request(None)),
        Err(Error::PrinterConfigurationManualActionRequired { .. })
    ));
    assert!(matches!(
        prepare_configuration(
            &app,
            &candidate(PaDriverMatch::AlreadyConfigured { printer_name: "Acme".into() }),
            &request(None)
        ),
        Err(Error::DiscoveredPrinterAlreadyConfigured { .. })
    ));
    let mut manual = app.clone();
    manual.capabilities = PrinterApplicationCapabilities::from_operations(vec![FIND_DEVICES]);
    assert!(matches!(
        prepare_configuration(&manual, &candidate(PaDriverMatch::Unsupported), &request(None)),
        Err(Error::PrinterConfigurationManualActionRequired { .. })
    ));
}

#[test]
fn a_created_printer_waits_for_its_advertisement() {
    let app = application("ipps://printer.local:8000/ipp/system", "printer.local", 8000);
    let finished = finish_configuration(
        &app,
        "app:4:0",
        &request(None),
        Ok(CreateOutcome::Created {
            printer_name: "Acme_Laser".into(),
            printer_uri: None,
            printer_uuid: Some("urn:uuid:7".into()),
        }),
        1234,
    );
    assert!(finished.refresh_destinations);
    let reply = finished.reply.expect("a reply");
    assert_eq!(reply.state, PrinterConfigurationState::AwaitingAdvertisement);
    assert_eq!(reply.operation_id, "app:4:Acme_Laser");
    assert_eq!(reply.operation_id, operation_id("app", 4, "Acme_Laser"));
    let receipt = finished.receipt.expect("a receipt");
    assert_eq!(receipt.state, PendingConfigurationState::AwaitingAdvertisement);
    assert_eq!(receipt.expected_printer_uuid.as_deref(), Some("urn:uuid:7"));
    assert_eq!(receipt.application_endpoint, Some(("printer.local".to_string(), 8000)));
    assert_eq!(receipt.created_at_ms, 1234);
}

#[test]
fn a_refused_driver_sends_the_person_to_the_application() {
    let app = application("ipps://printer.local:8000/ipp/system", "printer.local", 8000);
    let finished = finish_configuration(
        &app,
        "app:4:0",
        &request(None),
        Ok(CreateOutcome::Rejected {
            status: "ErrorBadRequest (0x0400)".into(),
            why: String::new(),
            unsupported_attributes: vec![DRIVER.into()],
        }),
        0,
    );
    assert!(finished.receipt.is_none());
    match finished.reply {
        Err(Error::PrinterConfigurationManualActionRequired { why, web_interface_uri, .. }) => {
            assert_eq!(why, "the printer application rejected the selected driver");
            assert_eq!(web_interface_uri.as_deref(), Some("https://printer.local:8000/"));
        }
        other => panic!("unexpected {other:?}"),
    }

    let finished = finish_configuration(
        &app,
        "app:4:0",
        &request(None),
        Ok(CreateOutcome::Rejected {
            status: "ErrorBadRequest (0x0400)".into(),
            why: String::new(),
            unsupported_attributes: vec!["a".into(), "b".into()],
        }),
        0,
    );
    match finished.reply {
        Err(Error::PrinterConfigurationRejected { why, .. }) => {
            assert_eq!(why, "unsupported attributes: a, b")
        }
        other => panic!("unexpected {other:?}"),
    }
}

#[test]
fn an_uncertain_outcome_keeps_a_receipt() {
    let app = application("ipps://printer.local:8000/ipp/system", "printer.local", 8000);
    let finished = finish_configuration(
        &app,
        "app:4:0",
        &request(None),
        Ok(CreateOutcome::UnknownOutcome { printer_name: "Acme".into(), why: "lost".into() }),
        0,
    );
    assert!(matches!(finished.reply, Err(Error::PrinterConfigurationUnknownOutcome { .. })));
    assert_eq!(
        finished.receipt.map(|r| r.state),
        Some(PendingConfigurationState::UnknownOutcome)
    );
}

#[test]
fn each_failure_becomes_the_error_a_client_can_act_on() {
    assert!(matches!(
        configuration_error("app", PaError::Forbidden { why: "no".into() }, None),
        Error::PrinterConfigurationManualActionRequired { .. }
    ));
    assert!(matches!(
        configuration_error("app", PaError::OperationNotSupported, None),
        Error::PrinterApplicationOperationNotSupported { ref operation, .. } if operation == "Create-Printer"
    ));
    assert!(matches!(
        operation_error("app", "Get-Printers", PaError::Forbidden { why: "no".into() }),
        Error::PermissionDenied { ref operation } if operation == "Get-Printers through app: no"
    ));
    assert!(matches!(
        operation_error("app", "Get-Printers", PaError::Rejected { status: "S".into(), why: "w".into() }),
        Error::CupsFailed { ref why } if why == "Get-Printers failed with S: w"
    ));
    assert!(matches!(
        resolve_error(ResolveError::Expired { generation: 3 }, "p", "c"),
        Error::AddPrinterDiscoveryExpired { generation: 3 }
    ));
    assert!(matches!(
        resolve_error(ResolveError::CandidateNotFound, "p", "c"),
        Error::PrinterApplicationCandidateNotFound { ref candidate_id } if candidate_id == "c"
    ));
}

#[test]
fn settled_failures_name_their_application_and_keep_their_receipt() {
    let app = application("ipps://printer.local:8000/ipp/system", "printer.local", 8000);
    let finished = finish_configuration(
        &app,
        "app:4:0",
        &request(None),
        Ok(CreateOutcome::UnknownOutcome { printer_name: "Acme_Laser".into(), why: "timed out".into() }),
        0,
    );
    assert_eq!(
        finished.reply.err(),
        Some(Error::PrinterConfigurationUnknownOutcome {
            application_id: "app".into(),
            printer_name: "Acme_Laser".into(),
        })
    );
    let receipt = finished.receipt.expect("a receipt");
    assert_eq!(receipt.operation_id, "app:4:Acme_Laser");
    assert_eq!(receipt.candidate_id, "app:4:0");
    assert_eq!(receipt.printer_application_id, "app");
    assert_eq!(receipt.configured_printer_name, "Acme_Laser");

    let finished = finish_configuration(
        &app,
        "app:4:0",
        &request(None),
        Ok(CreateOutcome::AlreadyConfigured { printer_name: "Acme".into() }),
        0,
    );
    assert_eq!(
        finished.reply.err(),
        Some(Error::DiscoveredPrinterAlreadyConfigured {
            application_id: "app".into(),
            printer_name: "Acme".into(),
        })
    );
    let receipt = finished.receipt.expect("a receipt");
    assert_eq!(receipt.operation_id, "app:4:Acme");
    assert_eq!(receipt.state, PendingConfigurationState::AlreadyConfigured);

    let finished = finish_configuration(
        &app,
        "app:4:0",
        &request(None),
        Ok(CreateOutcome::Rejected {
            status: "ErrorBadRequest (0x0400)".into(),
            why: String::new(),
            unsupported_attributes: vec![DEVICE_URI.into()],
        }),
        0,
    );
    assert_eq!(
        finished.reply.err(),
        Some(Error::PrinterConfigurationManualActionRequired {
            application_id: "app".into(),
            web_interface_uri: Some("https://printer.local:8000/".into()),
            why: "the printer application rejected its own device URI for this printer".into(),
        })
    );
}

#[test]
fn refusals_before_sending_name_the_application() {
    let app = application("ipps://printer.local:8000/ipp/system", "printer.local", 8000);
    assert_eq!(
        prepare_configuration(
            &app,
            &candidate(PaDriverMatch::AlreadyConfigured { printer_name: "Acme".into() }),
            &request(None)
        )
        .err(),
        Some(Error::DiscoveredPrinterAlreadyConfigured {
            application_id: "app".into(),
            printer_name: "Acme".into(),
        })
    );
    assert_eq!(
        prepare_configuration(&app, &candidate(PaDriverMatch::Unsupported), &request(None)).err(),
        Some(Error::PrinterConfigurationManualActionRequired {
            application_id: "app".into(),
            web_interface_uri: Some("https://printer.local:8000/".into()),
            why: "no single driver matches this printer".into(),
        })
    );
}
