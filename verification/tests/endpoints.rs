use printers::destinations::Destinations;
use printers::endpoints::{device_service_name, DnssdDeviceEndpoint};
use printers::entry::PrinterEntry;

fn destination(id: &str, location: &str) -> PrinterEntry {
    PrinterEntry::new(
        id,
        id,
        false,
        vec![("printer-location".to_string(), location.to_string())],
    )
}

fn dnssd_destination(id: &str) -> PrinterEntry {
    let mut printer = destination(id, "");
    printer.set_option("device-uri", format!("ipps://{id}._ipps._tcp.local/"));
    printer
}

fn resolved_endpoint() -> DnssdDeviceEndpoint {
    DnssdDeviceEndpoint {
        hostname: "desktop.local".into(),
        port: 8000,
        address: Some("192.0.2.1".into()),
        is_local: true,
    }
}

fn through_a_local_queue(id: &str) -> PrinterEntry {
    let mut printer = dnssd_destination(id);
    printer.set_option("endpoint-hostname", "localhost".to_string());
    printer.set_option("endpoint-port", "631".to_string());
    printer.set_option("endpoint-address", "127.0.0.1".to_string());
    printer.set_option("endpoint-is-local", "true".to_string());
    printer
}

#[test]
fn dnssd_endpoint_is_applied_when_resolution_arrives_first() {
    let mut context = Destinations::new();
    context.record_dnssd_device_endpoint("socketlabel._ipps._tcp.local".into(), resolved_endpoint());

    context.update_available_destination(dnssd_destination("SocketLabel"));

    let cached = context.available_destinations_cached();
    assert_eq!(cached[0].option("dnssd-hostname"), Some("desktop.local"));
    assert_eq!(cached[0].option("dnssd-port"), Some("8000"));
    assert_eq!(cached[0].option("endpoint-address"), Some("192.0.2.1"));
    assert_eq!(cached[0].option("endpoint-is-local"), Some("true"));
}

#[test]
fn dnssd_endpoint_is_applied_when_destination_arrives_first() {
    let mut context = Destinations::new();
    context.update_available_destination(dnssd_destination("SocketLabel"));

    let (found, changed) =
        context.record_dnssd_device_endpoint("socketlabel._ipps._tcp.local".into(), resolved_endpoint());

    assert!(found);
    assert_eq!(changed, vec!["SocketLabel".to_string()]);
    let cached = context.available_destinations_cached();
    assert_eq!(cached[0].option("dnssd-hostname"), Some("desktop.local"));
    assert_eq!(cached[0].option("dnssd-port"), Some("8000"));
    assert_eq!(cached[0].option("endpoint-address"), Some("192.0.2.1"));
    assert_eq!(cached[0].option("endpoint-is-local"), Some("true"));
}

#[test]
fn later_destination_update_keeps_resolved_dnssd_endpoint() {
    let mut context = Destinations::new();
    context.record_dnssd_device_endpoint("socketlabel._ipps._tcp.local".into(), resolved_endpoint());
    context.update_available_destination(dnssd_destination("SocketLabel"));

    let changed = context.update_available_destination(dnssd_destination("SocketLabel"));

    assert!(!changed);
    let cached = context.available_destinations_cached();
    assert_eq!(cached[0].option("dnssd-hostname"), Some("desktop.local"));
    assert_eq!(cached[0].option("dnssd-port"), Some("8000"));
}

#[test]
fn the_advertisement_replaces_what_a_temporary_queue_reported_first() {
    let mut context = Destinations::new();
    context.update_available_destination(through_a_local_queue("SocketLabel"));

    context.record_dnssd_device_endpoint(
        "socketlabel._ipps._tcp.local".into(),
        DnssdDeviceEndpoint {
            is_local: false,
            ..resolved_endpoint()
        },
    );

    let cached = context.available_destinations_cached();
    assert_eq!(cached[0].option("dnssd-hostname"), Some("desktop.local"));
    assert_eq!(cached[0].option("dnssd-port"), Some("8000"));
    assert_eq!(cached[0].option("endpoint-address"), Some("192.0.2.1"));
    assert_eq!(cached[0].option("endpoint-is-local"), Some("false"));
}

#[test]
fn a_temporary_queue_read_later_does_not_take_the_endpoint_back() {
    let mut context = Destinations::new();
    context.record_dnssd_device_endpoint("socketlabel._ipps._tcp.local".into(), resolved_endpoint());
    context.update_available_destination(dnssd_destination("SocketLabel"));

    context.update_available_destination(through_a_local_queue("SocketLabel"));

    let cached = context.available_destinations_cached();
    assert_eq!(cached[0].option("dnssd-hostname"), Some("desktop.local"));
    assert_eq!(cached[0].option("dnssd-port"), Some("8000"));
    assert_eq!(cached[0].option("endpoint-address"), Some("192.0.2.1"));
}

#[test]
fn a_name_with_spaces_matches_its_percent_encoded_device_uri() {
    let mut context = Destinations::new();
    let mut printer = destination("Office_Laser", "");
    printer.set_option("device-uri", "dnssd://Office%20Laser._ipp._tcp.local/".to_string());
    context.update_available_destination(printer);

    let (known, _) =
        context.record_dnssd_device_endpoint("office laser._ipp._tcp.local".into(), resolved_endpoint());

    assert!(known);
    assert_eq!(
        context.available_destinations_cached()[0].option("dnssd-port"),
        Some("8000")
    );
}

#[test]
fn a_printer_whose_advertisement_went_away_is_dropped_on_the_next_miss() {
    let mut context = Destinations::new();
    context.update_available_destination(dnssd_destination("SocketLabel"));

    context.remove_dnssd_device_endpoint("socketlabel._ipps._tcp.local");
    context.retain_available_destinations(&Vec::new());

    assert!(context.available_destinations_cached().is_empty());
}

#[test]
fn a_printer_still_enumerated_outlives_its_advertisement() {
    let mut context = Destinations::new();
    context.update_available_destination(dnssd_destination("SocketLabel"));

    context.remove_dnssd_device_endpoint("socketlabel._ipps._tcp.local");
    context.retain_available_destinations(&vec!["SocketLabel".to_string()]);
    context.retain_available_destinations(&Vec::new());

    assert_eq!(context.available_destinations_cached().len(), 1);
}

#[test]
fn a_service_nobody_names_is_remembered_but_not_found() {
    let mut context = Destinations::new();
    context.update_available_destination(destination("office", "first floor"));

    let (found, changed) =
        context.record_dnssd_device_endpoint("elsewhere._ipp._tcp.local".into(), resolved_endpoint());

    assert!(!found);
    assert!(changed.is_empty());
    assert_eq!(context.available_destinations_cached()[0].option("dnssd-hostname"), None);
}

#[test]
fn the_service_a_device_uri_names_is_its_lower_cased_host() {
    let mut printer = destination("Office", "");
    printer.set_option("device-uri", "ipps://Office.Local./ipp/print".to_string());
    assert_eq!(device_service_name(&printer), Some("office.local".to_string()));

    let plain = destination("Plain", "");
    assert_eq!(device_service_name(&plain), None);
}

#[test]
fn setting_an_option_replaces_its_first_value_or_adds_it() {
    let mut printer = destination("Office", "hall");
    printer.set_option("printer-location", "attic".to_string());
    printer.set_option("printer-info", "Laser".to_string());

    assert_eq!(printer.location(), Some("attic"));
    assert_eq!(printer.option("printer-info"), Some("Laser"));
    assert_eq!(printer.options.len(), 2);
}
