//! Localized strings required by UI hosts.
//!
//! Each function asks the loader for one fixed message; the message
//! identifier it asks for is what its documentation names.

use vstd::prelude::*;
use i18n_embed::fluent::FluentLanguageLoader;
use crate::localize::localized;

verus! {

/// The Printers page title (message `printers`).
pub fn printers(loader: &FluentLanguageLoader) -> String {
    localized(loader, printers_message())
}

/// The identifier of the message [`printers`] asks for.
pub fn printers_message() -> (r: &'static str)
    ensures
        r@ == "printers"@,
{
    "printers"
}

/// The printer details page title (message `printer-details`).
pub fn printer_details(loader: &FluentLanguageLoader) -> String {
    localized(loader, printer_details_message())
}

/// The identifier of the message [`printer_details`] asks for.
pub fn printer_details_message() -> (r: &'static str)
    ensures
        r@ == "printer-details"@,
{
    "printer-details"
}

/// The printer details page description (message `printer-details-description`).
pub fn printer_details_description(loader: &FluentLanguageLoader) -> String {
    localized(loader, printer_details_description_message())
}

/// The identifier of the message [`printer_details_description`] asks for.
pub fn printer_details_description_message() -> (r: &'static str)
    ensures
        r@ == "printer-details-description"@,
{
    "printer-details-description"
}

/// The print queue title (message `printer-queue`).
pub fn printer_queue(loader: &FluentLanguageLoader) -> String {
    localized(loader, printer_queue_message())
}

/// The identifier of the message [`printer_queue`] asks for.
pub fn printer_queue_message() -> (r: &'static str)
    ensures
        r@ == "printer-queue"@,
{
    "printer-queue"
}

/// The print queue description (message `printer-queue-description`).
pub fn printer_queue_description(loader: &FluentLanguageLoader) -> String {
    localized(loader, printer_queue_description_message())
}

/// The identifier of the message [`printer_queue_description`] asks for.
pub fn printer_queue_description_message() -> (r: &'static str)
    ensures
        r@ == "printer-queue-description"@,
{
    "printer-queue-description"
}

/// The default printer section title (message `default-printer`).
pub fn default_printer(loader: &FluentLanguageLoader) -> String {
    localized(loader, default_printer_message())
}

/// The identifier of the message [`default_printer`] asks for.
pub fn default_printer_message() -> (r: &'static str)
    ensures
        r@ == "default-printer"@,
{
    "default-printer"
}

/// The printer information section title (message `printer-information`).
pub fn printer_information(loader: &FluentLanguageLoader) -> String {
    localized(loader, printer_information_message())
}

/// The identifier of the message [`printer_information`] asks for.
pub fn printer_information_message() -> (r: &'static str)
    ensures
        r@ == "printer-information"@,
{
    "printer-information"
}

/// The printing preferences section title (message `printing-preferences`).
pub fn printing_preferences(loader: &FluentLanguageLoader) -> String {
    localized(loader, printing_preferences_message())
}

/// The identifier of the message [`printing_preferences`] asks for.
pub fn printing_preferences_message() -> (r: &'static str)
    ensures
        r@ == "printing-preferences"@,
{
    "printing-preferences"
}

/// The supplies section title (message `supplies`).
pub fn supplies(loader: &FluentLanguageLoader) -> String {
    localized(loader, supplies_message())
}

/// The identifier of the message [`supplies`] asks for.
pub fn supplies_message() -> (r: &'static str)
    ensures
        r@ == "supplies"@,
{
    "supplies"
}

/// The remove printer section title (message `remove-printer`).
pub fn remove_printer(loader: &FluentLanguageLoader) -> String {
    localized(loader, remove_printer_message())
}

/// The identifier of the message [`remove_printer`] asks for.
pub fn remove_printer_message() -> (r: &'static str)
    ensures
        r@ == "remove-printer"@,
{
    "remove-printer"
}

/// The default printer row label (message `set-as-default-printer`).
pub fn set_as_default_printer(loader: &FluentLanguageLoader) -> String {
    localized(loader, set_as_default_printer_message())
}

/// The identifier of the message [`set_as_default_printer`] asks for.
pub fn set_as_default_printer_message() -> (r: &'static str)
    ensures
        r@ == "set-as-default-printer"@,
{
    "set-as-default-printer"
}

/// The searchable labels of the rows in the printer-information section, in
/// row order: messages `location`, `model`, `device-name`, `driver-version`.
pub fn printer_information_rows(loader: &FluentLanguageLoader) -> [String; 4] {
    let ids = printer_information_row_messages();
    [localized(loader, ids[0]), localized(loader, ids[1]), localized(loader, ids[2]), localized(loader, ids[3])]
}

/// The identifiers of the messages [`printer_information_rows`] asks for,
/// in row order.
pub fn printer_information_row_messages() -> (r: [&'static str; 4])
    ensures
        r@.len() == 4,
        r@[0]@ == "location"@,
        r@[1]@ == "model"@,
        r@[2]@ == "device-name"@,
        r@[3]@ == "driver-version"@,
{
    ["location", "model", "device-name", "driver-version"]
}

/// The searchable labels of the rows in the preferences section, in row
/// order: messages `paper-size`, `print-sides`.
pub fn printing_preferences_rows(loader: &FluentLanguageLoader) -> [String; 2] {
    let ids = printing_preferences_row_messages();
    [localized(loader, ids[0]), localized(loader, ids[1])]
}

/// The identifiers of the messages [`printing_preferences_rows`] asks for,
/// in row order.
pub fn printing_preferences_row_messages() -> (r: [&'static str; 2])
    ensures
        r@.len() == 2,
        r@[0]@ == "paper-size"@,
        r@[1]@ == "print-sides"@,
{
    ["paper-size", "print-sides"]
}

} // verus!
