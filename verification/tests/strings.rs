use printers::details::supply_level_unknown_message;
use printers::strings::{
    default_printer_message, printer_details_description_message, printer_details_message,
    printer_information_message, printer_information_row_messages, printer_queue_description_message,
    printer_queue_message, printers_message, printing_preferences_message, printing_preferences_row_messages,
    remove_printer_message, set_as_default_printer_message, supplies_message,
};

#[test]
fn each_title_asks_for_its_own_message() {
    assert_eq!(printers_message(), "printers");
    assert_eq!(printer_details_message(), "printer-details");
    assert_eq!(printer_details_description_message(), "printer-details-description");
    assert_eq!(printer_queue_message(), "printer-queue");
    assert_eq!(printer_queue_description_message(), "printer-queue-description");
    assert_eq!(default_printer_message(), "default-printer");
    assert_eq!(printer_information_message(), "printer-information");
    assert_eq!(printing_preferences_message(), "printing-preferences");
    assert_eq!(supplies_message(), "supplies");
    assert_eq!(remove_printer_message(), "remove-printer");
    assert_eq!(set_as_default_printer_message(), "set-as-default-printer");
    assert_eq!(supply_level_unknown_message(), "supply-level-unknown");
}

#[test]
fn the_row_labels_come_in_row_order() {
    assert_eq!(printer_information_row_messages(), ["location", "model", "device-name", "driver-version"]);
    assert_eq!(printing_preferences_row_messages(), ["paper-size", "print-sides"]);
}
