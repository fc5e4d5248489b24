use printers::ipp::{IppAttribute, IppGroup};
use printers::printers::{
    find_by_device_uri, find_by_name, printers_from_attributes, ConfiguredPrinter, PartialPrinter,
};

fn printer(name: &str, device_uri: Option<&str>, uuid: Option<&str>) -> ConfiguredPrinter {
    ConfiguredPrinter {
        printer_id: None,
        name: name.to_string(),
        device_uri: device_uri.map(ToString::to_string),
        printer_uri: None,
        printer_uuid: uuid.map(ToString::to_string),
        web_interface_uri: None,
    }
}

fn attribute(name: Option<&str>, group: IppGroup, value: &str) -> IppAttribute {
    IppAttribute {
        name: name.map(ToString::to_string),
        group,
        text: Some(value.to_string()),
        integer: 0,
    }
}

#[test]
fn finds_an_existing_printer_by_its_exact_device_uri() {
    let printers = vec![
        printer("Other", Some("socket://192.0.2.11:9100"), None),
        printer("Acme", Some("socket://192.0.2.10:9100"), None),
    ];

    assert_eq!(
        find_by_device_uri(&printers, "socket://192.0.2.10:9100")
            .map(|printer| printer.name.as_str()),
        Some("Acme")
    );
    assert!(find_by_device_uri(&printers, "socket://192.0.2.10").is_none());
}

#[test]
fn finds_a_printer_by_name_ignoring_case() {
    let printers = vec![printer("Acme_Test_Laser", None, None)];

    assert!(find_by_name(&printers, "acme_test_laser").is_some());
    assert!(find_by_name(&printers, "Acme_Test_Laser_2").is_none());
}

#[test]
fn a_record_without_a_name_is_not_a_printer() {
    let partial = PartialPrinter {
        name: None,
        device_uri: Some("socket://192.0.2.10:9100".into()),
        ..PartialPrinter::default()
    };

    assert_eq!(partial.finish(), None);
}

#[test]
fn printers_are_read_group_by_group() {
    let attrs = vec![
        attribute(Some("attributes-charset"), IppGroup::Operation, "utf-8"),
        attribute(None, IppGroup::Other, ""),
        attribute(Some("printer-name"), IppGroup::Printer, " Acme "),
        attribute(Some("smi55357-device-uri"), IppGroup::Printer, "socket://192.0.2.10"),
        attribute(Some("printer-uuid"), IppGroup::Printer, "   "),
        attribute(None, IppGroup::Other, ""),
        attribute(Some("printer-uri-supported"), IppGroup::Printer, "ipp://x/ipp/print/Nameless"),
        attribute(None, IppGroup::Other, ""),
        attribute(Some("printer-name"), IppGroup::Printer, "Second"),
        attribute(Some("printer-more-info"), IppGroup::Printer, "http://x/"),
    ];

    let printers = printers_from_attributes(&attrs);
    assert_eq!(printers.len(), 2);
    assert_eq!(printers[0].name, "Acme");
    assert_eq!(printers[0].device_uri.as_deref(), Some("socket://192.0.2.10"));
    assert_eq!(printers[0].printer_uuid, None);
    assert_eq!(printers[1].name, "Second");
    assert_eq!(printers[1].web_interface_uri.as_deref(), Some("http://x/"));
}
