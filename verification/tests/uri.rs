use printers::uri::{
    is_ipp_uri, is_local_scheduler_uri, loopback_uri, parse_uri_endpoint, system_service_uri,
    web_page_from_uri, EncryptionMode, ParsedUri,
};

#[test]
fn extracts_ipp_endpoint_and_resource() {
    let uri = "ipps://printer.local:8000/ipp/system";
    assert_eq!(
        parse_uri_endpoint(uri),
        Some(("printer.local".to_string(), 8000))
    );
    assert_eq!(
        ParsedUri::parse(uri).unwrap().resource_path(),
        "/ipp/system"
    );
}

#[test]
fn recognizes_schemes_case_insensitively() {
    assert!(is_ipp_uri("IPP://printer.local/ipp/print"));
    assert!(is_ipp_uri("IPPS://printer.local/ipp/print"));
}

#[test]
fn rejects_invalid_ports_and_unbracketed_ipv6() {
    assert_eq!(
        parse_uri_endpoint("ipp://printer.local:not-a-port/ipp/print"),
        None
    );
    assert_eq!(parse_uri_endpoint("ipp://2001:db8::1/ipp/print"), None);
}

#[test]
fn parses_bracketed_ipv6() {
    assert_eq!(
        parse_uri_endpoint("ipps://[2001:db8::1]:8631/ipp/print"),
        Some(("[2001:db8::1]".to_string(), 8631))
    );
}

#[test]
fn requires_tls_for_ipps_case_insensitively() {
    assert_eq!(
        ParsedUri::parse("IPPS://printer.local/ipp/system")
            .unwrap()
            .encryption(),
        EncryptionMode::Always
    );
    assert_eq!(
        ParsedUri::parse("IPP://printer.local/ipp/print")
            .unwrap()
            .encryption(),
        EncryptionMode::IfRequested
    );
}

#[test]
fn detects_only_local_scheduler_resources_on_the_cups_port() {
    assert!(is_local_scheduler_uri("ipp://localhost/printers/example"));
    assert!(is_local_scheduler_uri("ipp://127.0.0.1/"));
    assert!(is_local_scheduler_uri("ipp://localhost/jobs"));
    assert!(!is_local_scheduler_uri("ipps://localhost/printers/example"));
    assert!(!is_local_scheduler_uri(
        "ipp://localhost:8000/printers/example"
    ));
    assert!(!is_local_scheduler_uri("ipp://localhost:8000/ipp/print"));
}

#[test]
fn derives_web_scheme_from_ipp_security() {
    assert_eq!(
        web_page_from_uri("ipp://printer.local:8000/ipp/print").as_deref(),
        Some("http://printer.local:8000/")
    );
    assert_eq!(
        web_page_from_uri("ipps://printer.local:8000/ipp/print").as_deref(),
        Some("https://printer.local:8000/")
    );
}

#[test]
fn the_scheduler_is_reached_over_ipv6_loopback_too() {
    assert!(is_local_scheduler_uri("ipp://[::1]/printers/example"));
    assert!(!is_local_scheduler_uri("ipp://printer.local/printers/example"));
    assert!(is_local_scheduler_uri("ipp://LOCALHOST/admin/"));
    assert!(!is_local_scheduler_uri("ipp://127.0.0.1/ipp/print"));
}

#[test]
fn a_service_is_readdressed_to_loopback_on_its_own_port() {
    assert_eq!(
        loopback_uri("ipps://printer.local:8000/ipp/print").as_deref(),
        Some("ipps://localhost:8000/ipp/print")
    );
    assert_eq!(loopback_uri("https://printer.local/"), None);
}

#[test]
fn the_system_service_lives_at_ipp_system() {
    assert_eq!(
        system_service_uri("ipp://localhost/").as_deref(),
        Some("ipp://localhost/ipp/system")
    );
    assert_eq!(
        system_service_uri("ipps://host:8000/ipp/print?x=1#y").as_deref(),
        Some("ipps://host:8000/ipp/system")
    );
    assert_eq!(system_service_uri("http://host/"), None);
}
