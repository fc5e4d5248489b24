use printers::client::PaError;
use printers::devices::{absorb_type_scan, merged_or_error, FindDevicesResult};
use printers::device_id::DeviceId;
use printers::client::IppStatus;
use printers::devices::{
    decode_dns_sd_escapes, default_port, display_name, dns_sd_service, evidence,
    normalized_device_uri, observation_id, observations_from, uri_endpoint, uri_query_value,
    DeviceCollectionAttribute, DeviceRecord, DeviceTransport,
};

#[test]
fn devices_classifies_transports_by_scheme() {
    assert_eq!(DeviceTransport::from_uri("usb://Acme/X"), DeviceTransport::Usb);
    assert_eq!(
        DeviceTransport::from_uri("socket://192.0.2.10:9100"),
        DeviceTransport::Socket
    );
    assert_eq!(
        DeviceTransport::from_uri("DNSSD://Printer._pdl-datastream._tcp.local"),
        DeviceTransport::DnsSd
    );
    assert_eq!(
        DeviceTransport::from_uri("ipps://printer.local/ipp/print"),
        DeviceTransport::Ipp
    );
    assert_eq!(
        DeviceTransport::from_uri("hp:/net/HP_LaserJet?ip=192.0.2.10"),
        DeviceTransport::Vendor
    );
    assert_eq!(DeviceTransport::from_uri("nonsense"), DeviceTransport::Vendor);
}

#[test]
fn devices_local_usb_is_preferred_over_a_bare_socket() {
    assert!(DeviceTransport::Usb.preference() < DeviceTransport::Socket.preference());
    assert!(DeviceTransport::Ipp.preference() < DeviceTransport::Socket.preference());
    assert!(DeviceTransport::Vendor.preference() < DeviceTransport::Socket.preference());
}

#[test]
fn devices_normalization_folds_case_and_default_ports() {
    assert_eq!(
        normalized_device_uri("SOCKET://192.0.2.10:9100/"),
        normalized_device_uri("socket://192.0.2.10/")
    );
    assert_eq!(
        normalized_device_uri("ipp://Printer.local:631/ipp/print"),
        "ipp://printer.local/ipp/print"
    );
}

#[test]
fn devices_normalization_does_not_touch_a_vendor_uri_beyond_case() {
    assert_eq!(
        normalized_device_uri("hp:/net/HP_LaserJet?ip=192.0.2.10"),
        "hp:/net/hp_laserjet?ip=192.0.2.10"
    );
}

#[test]
fn devices_endpoints_are_read_from_network_uris_only() {
    assert_eq!(
        uri_endpoint("socket://192.0.2.10:9100"),
        Some(("192.0.2.10".to_string(), Some(9100)))
    );
    assert_eq!(
        uri_endpoint("ipps://[2001:db8::1]:8631/ipp/print"),
        Some(("[2001:db8::1]".to_string(), Some(8631)))
    );
    assert_eq!(
        uri_endpoint("usb://Acme/Test?serial=S1"),
        Some(("Acme".to_string(), None))
    );
    assert_eq!(uri_endpoint("nonsense"), None);
}

#[test]
fn a_uri_that_omits_its_port_still_names_a_whole_endpoint() {
    assert_eq!(
        uri_endpoint("socket://192.0.2.50"),
        Some(("192.0.2.50".to_string(), Some(9100)))
    );
    assert_eq!(
        uri_endpoint("ipp://printer.lan/ipp/print"),
        Some(("printer.lan".to_string(), Some(631)))
    );
    assert_eq!(
        uri_endpoint("lprint://192.0.2.50/"),
        Some(("192.0.2.50".to_string(), None))
    );
}

#[test]
fn the_transports_without_a_host_are_local_ones() {
    assert!(!DeviceTransport::Usb.addresses_a_host());
    assert!(!DeviceTransport::from_uri("parallel:/dev/lp0").addresses_a_host());
    assert!(DeviceTransport::Socket.addresses_a_host());
    assert!(DeviceTransport::Vendor.addresses_a_host());
}

#[test]
fn each_scheme_has_its_own_default_port() {
    assert_eq!(default_port("ipp"), Some(631));
    assert_eq!(default_port("ipps"), Some(631));
    assert_eq!(default_port("socket"), Some(9100));
    assert_eq!(default_port("http"), Some(80));
    assert_eq!(default_port("https"), Some(443));
    assert_eq!(default_port("usb"), None);
}

#[test]
fn user_info_and_non_numeric_ports_are_handled() {
    assert_eq!(
        uri_endpoint("ipp://user@host.lan:8000/x"),
        Some(("host.lan".to_string(), Some(8000)))
    );
    assert_eq!(
        uri_endpoint("usb://Acme:Model/X"),
        Some(("Acme:Model".to_string(), None))
    );
    assert_eq!(uri_endpoint("socket:///nothing"), None);
}

#[test]
fn a_fragment_is_left_out_of_the_comparison_form() {
    assert_eq!(
        normalized_device_uri("Socket://Host:9100/q#frag"),
        "socket://host/q"
    );
    assert_eq!(normalized_device_uri("ipp://host:8631"), "ipp://host:8631/");
}

#[test]
fn query_values_are_matched_without_case() {
    assert_eq!(
        uri_query_value("usb://Acme/Test?Serial=abc&uuid=1", "serial").as_deref(),
        Some("abc")
    );
    assert_eq!(uri_query_value("usb://Acme/Test?serial=&x=1", "serial"), None);
    assert_eq!(
        uri_query_value("usb://Acme/Test?serial=&serial=ABC", "serial").as_deref(),
        Some("ABC")
    );
    assert_eq!(uri_query_value("usb://Acme/Test", "serial"), None);
}

#[test]
fn observations_are_numbered_within_an_application_and_round() {
    assert_eq!(observation_id("app", 7, 3), "app:7:3");
}

#[test]
fn dns_sd_escapes_are_undone() {
    assert_eq!(decode_dns_sd_escapes("Acme\\032Laser"), "Acme Laser");
    assert_eq!(decode_dns_sd_escapes("a\\.b"), "a.b");
    assert_eq!(decode_dns_sd_escapes("x\\999"), "x\\999");
    assert_eq!(decode_dns_sd_escapes("caf\\195\\169"), "café");
}

#[test]
fn a_dns_sd_service_is_read_out_of_its_uri() {
    assert_eq!(
        dns_sd_service("dnssd://Acme%20Laser._ipp._tcp.local./?uuid=1").as_deref(),
        Some("acme laser._ipp._tcp.local")
    );
    assert_eq!(
        dns_sd_service("cups:DNSSD://Acme\\032Laser._ipp._tcp.local/").as_deref(),
        Some("acme laser._ipp._tcp.local")
    );
    assert_eq!(dns_sd_service("socket://host"), None);
    assert_eq!(dns_sd_service("dnssd://"), None);
}

#[test]
fn classifies_transports_by_scheme() {
    assert_eq!(DeviceTransport::from_uri("usb://Acme/X"), DeviceTransport::Usb);
    assert_eq!(
        DeviceTransport::from_uri("socket://192.0.2.10:9100"),
        DeviceTransport::Socket
    );
    assert_eq!(
        DeviceTransport::from_uri("DNSSD://Printer._pdl-datastream._tcp.local"),
        DeviceTransport::DnsSd
    );
    assert_eq!(
        DeviceTransport::from_uri("ipps://printer.local/ipp/print"),
        DeviceTransport::Ipp
    );
    assert_eq!(
        DeviceTransport::from_uri("hp:/net/HP_LaserJet?ip=192.0.2.10"),
        DeviceTransport::Vendor
    );
    assert_eq!(DeviceTransport::from_uri("nonsense"), DeviceTransport::Vendor);
}

#[test]
fn local_usb_is_preferred_over_a_bare_socket() {
    assert!(DeviceTransport::Usb.preference() < DeviceTransport::Socket.preference());
    assert!(DeviceTransport::Ipp.preference() < DeviceTransport::Socket.preference());
    assert!(DeviceTransport::Vendor.preference() < DeviceTransport::Socket.preference());
}

#[test]
fn normalization_folds_case_and_default_ports() {
    assert_eq!(
        normalized_device_uri("SOCKET://192.0.2.10:9100/"),
        normalized_device_uri("socket://192.0.2.10/")
    );
    assert_eq!(
        normalized_device_uri("ipp://Printer.local:631/ipp/print"),
        "ipp://printer.local/ipp/print"
    );
}

#[test]
fn normalization_does_not_touch_a_vendor_uri_beyond_case() {
    assert_eq!(
        normalized_device_uri("hp:/net/HP_LaserJet?ip=192.0.2.10"),
        "hp:/net/hp_laserjet?ip=192.0.2.10"
    );
}

#[test]
fn endpoints_are_read_from_network_uris_only() {
    assert_eq!(
        uri_endpoint("socket://192.0.2.10:9100"),
        Some(("192.0.2.10".to_string(), Some(9100)))
    );
    assert_eq!(
        uri_endpoint("ipps://[2001:db8::1]:8631/ipp/print"),
        Some(("[2001:db8::1]".to_string(), Some(8631)))
    );
    assert_eq!(
        uri_endpoint("usb://Acme/Test?serial=S1"),
        Some(("Acme".to_string(), None))
    );
    assert_eq!(uri_endpoint("nonsense"), None);
}

#[test]
fn a_usb_device_name_is_not_taken_as_a_host() {
    let evidence = evidence(None, "usb://Brother/HL-L2350DW");

    assert_eq!(evidence.network_hostname, None);
    assert_eq!(evidence.network_port, None);
}

#[test]
fn serial_is_read_from_a_usb_uri_when_the_device_id_has_none() {
    let evidence = evidence(None, "usb://Acme/Test%20Laser?serial=abc123");

    assert_eq!(evidence.serial_number.as_deref(), Some("ABC123"));
}

#[test]
fn a_device_id_serial_wins_over_the_uri() {
    let device_id = DeviceId::parse("MFG:Acme;MDL:Test;SN:FROM-ID;");
    let evidence = evidence(Some(&device_id), "usb://Acme/Test?serial=from-uri");

    assert_eq!(evidence.serial_number.as_deref(), Some("FROM-ID"));
}

#[test]
fn display_name_prefers_the_application_description() {
    let device_id = DeviceId::parse("MFG:Acme;MDL:Test Laser;");

    assert_eq!(
        display_name(
            Some(&device_id),
            Some("Acme Test Laser (network)"),
            "socket://x"
        ),
        "Acme Test Laser (network)"
    );
    assert_eq!(
        display_name(Some(&device_id), Some("   "), "socket://x"),
        "Acme Test Laser"
    );
    assert_eq!(display_name(None, None, "socket://x"), "socket://x");
}

#[test]
fn devices_serial_is_read_from_a_usb_uri_when_the_device_id_has_none() {
    let evidence = evidence(None, "usb://Acme/Test%20Laser?serial=abc123");

    assert_eq!(evidence.serial_number.as_deref(), Some("ABC123"));
}

#[test]
fn devices_a_device_id_serial_wins_over_the_uri() {
    let device_id = DeviceId::parse("MFG:Acme;MDL:Test;SN:FROM-ID;");
    let evidence = evidence(Some(&device_id), "usb://Acme/Test?serial=from-uri");

    assert_eq!(evidence.serial_number.as_deref(), Some("FROM-ID"));
}

#[test]
fn devices_display_name_prefers_the_application_description() {
    let device_id = DeviceId::parse("MFG:Acme;MDL:Test Laser;");

    assert_eq!(
        display_name(
            Some(&device_id),
            Some("Acme Test Laser (network)"),
            "socket://x"
        ),
        "Acme Test Laser (network)"
    );
    assert_eq!(
        display_name(Some(&device_id), Some("   "), "socket://x"),
        "Acme Test Laser"
    );
    assert_eq!(display_name(None, None, "socket://x"), "socket://x");
}

fn device_record(uri: Option<&str>) -> DeviceRecord {
    DeviceRecord {
        device_uri: uri.map(ToString::to_string),
        device_id: None,
        device_info: None,
    }
}

#[test]
fn a_device_answer_lists_each_usable_uri_once_and_counts_the_rest() {
    let attributes = vec![
        DeviceCollectionAttribute {
            in_system_group: true,
            is_collection: true,
            collections: vec![
                device_record(Some("socket://192.0.2.10:9100")),
                device_record(Some("no-scheme")),
                device_record(None),
                device_record(Some("socket://192.0.2.10:9100")),
                device_record(Some("usb://Acme/Laser")),
            ],
        },
        DeviceCollectionAttribute {
            in_system_group: false,
            is_collection: true,
            collections: vec![device_record(Some("ipp://192.0.2.20/ipp/print"))],
        },
    ];

    let found = observations_from("pa", 3, IppStatus::Success, 0, &Vec::new(), &attributes).unwrap();

    let uris: Vec<&str> = found.observations.iter().map(|o| o.device_uri.as_str()).collect();
    assert_eq!(uris, vec!["socket://192.0.2.10:9100", "usb://Acme/Laser"]);
    assert_eq!(found.observations[1].id, "pa:3:1");
    assert_eq!(found.quarantined, 3);
}

#[test]
fn a_device_scan_that_found_nothing_is_not_a_failure() {
    let found = observations_from("pa", 1, IppStatus::ErrorNotFound, 0x0406, &Vec::new(), &Vec::new()).unwrap();
    assert!(found.observations.is_empty());
    assert_eq!(found.quarantined, 0);
    assert!(observations_from("pa", 1, IppStatus::ErrorInternalError, 0x0500, &Vec::new(), &Vec::new()).is_err());
}

#[test]
fn each_transport_scan_is_taken_in_when_the_combined_scan_failed() {
    let mut merged = FindDevicesResult { observations: Vec::new(), quarantined: usize::MAX - 1 };
    let mut answered = false;
    absorb_type_scan(&mut merged, &mut answered, Err(PaError::OperationNotSupported), "app", 1);
    assert!(!answered);
    absorb_type_scan(&mut merged, &mut answered, Ok(FindDevicesResult { observations: Vec::new(), quarantined: 5 }), "app", 1);
    assert!(answered);
    assert_eq!(merged.quarantined, usize::MAX);
    assert!(merged_or_error(merged, answered, PaError::OperationNotSupported).is_ok());
}
