use printers::errors::Error;

#[test]
fn an_error_reads_as_its_kind_then_what_it_names() {
    assert_eq!(Error::PrinterNotFound.describe(), "printer not found");
    assert_eq!(
        Error::PrinterApplicationOperationNotSupported {
            application_id: "hp".into(),
            operation: "Create-Printer".into(),
        }
        .describe(),
        "printer application hp does not support Create-Printer"
    );
    assert_eq!(
        Error::PrinterConfigurationRejected {
            application_id: "hp".into(),
            status: "bad-request".into(),
            why: "no driver".into(),
        }
        .describe(),
        "printer configuration rejected (bad-request): no driver"
    );
}
