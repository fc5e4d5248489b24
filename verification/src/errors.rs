//! What the printers service answers when a request cannot be carried out.

use vstd::prelude::*;
use crate::text::{push_str, string_of};

verus! {

/// A structured service error, as a client receives it.
#[derive(Clone, Debug, PartialEq, Eq)]
pub enum Error {
    PrinterNotFound,
    PermissionDenied { operation: String },
    CupsFailed { why: String },
    Internal { why: String },
    AddPrinterDiscoveryNotStarted,
    AddPrinterDiscoveryExpired { generation: u64 },
    DiscoveredPhysicalPrinterNotFound { printer_id: String },
    PrinterApplicationCandidateNotFound { candidate_id: String },
    PrinterApplicationNotFound { application_id: String },
    PrinterApplicationAuthenticationRequired { application_id: String },
    PrinterApplicationUnavailable { application_id: String },
    PrinterApplicationOperationNotSupported { application_id: String, operation: String },
    MalformedPrinterApplicationResponse { application_id: String, operation: String, why: String },
    PrinterConfigurationManualActionRequired {
        application_id: String,
        web_interface_uri: Option<String>,
        why: String,
    },
    PrinterConfigurationRejected { application_id: String, status: String, why: String },
    PrinterConfigurationUnknownOutcome { application_id: String, printer_name: String },
    DiscoveredPrinterAlreadyConfigured { application_id: String, printer_name: String },
}

/// The description of an error: a fixed phrase for its kind, then the
/// identifiers it carries.
pub open spec fn describe_spec(e: Error) -> Seq<char> {
    match e {
        Error::PrinterNotFound => "printer not found"@,
        Error::PermissionDenied { operation } => "permission denied: "@ + operation@,
        Error::CupsFailed { why } => "CUPS failed: "@ + why@,
        Error::Internal { why } => "internal error: "@ + why@,
        Error::AddPrinterDiscoveryNotStarted => "add printer discovery has not started"@,
        Error::AddPrinterDiscoveryExpired { .. } => "add printer discovery has moved on to a newer round"@,
        Error::DiscoveredPhysicalPrinterNotFound { printer_id } => "discovered printer not found: "@ + printer_id@,
        Error::PrinterApplicationCandidateNotFound { candidate_id } => "printer application candidate not found: "@
            + candidate_id@,
        Error::PrinterApplicationNotFound { application_id } => "printer application not found: "@ + application_id@,
        Error::PrinterApplicationAuthenticationRequired { application_id } =>
            "printer application requires authentication: "@ + application_id@,
        Error::PrinterApplicationUnavailable { application_id } => "printer application unavailable: "@
            + application_id@,
        Error::PrinterApplicationOperationNotSupported { application_id, operation } => "printer application "@
            + application_id@ + " does not support "@ + operation@,
        Error::MalformedPrinterApplicationResponse { application_id, operation, why } => "printer application "@
            + application_id@ + " answered "@ + operation@ + " unreadably: "@ + why@,
        Error::PrinterConfigurationManualActionRequired { why, .. } => "setup has to be finished by hand: "@ + why@,
        Error::PrinterConfigurationRejected { status, why, .. } => "printer configuration rejected ("@ + status@
            + "): "@ + why@,
        Error::PrinterConfigurationUnknownOutcome { printer_name, .. } =>
            "could not establish whether the printer was created: "@ + printer_name@,
        Error::DiscoveredPrinterAlreadyConfigured { printer_name, .. } => "the printer is already set up as "@
            + printer_name@,
    }
}

impl Error {
    /// A one-line description of the error for a person to read: a fixed
    /// phrase for the kind of error, then the identifiers it carries.
    pub fn describe(&self) -> (r: String)
        ensures
            r@ == describe_spec(*self),
    {
        let mut text: Vec<char> = Vec::new();
        assert(text@ =~= Seq::<char>::empty());
        match self {
            Error::PrinterNotFound => push_str(&mut text, "printer not found"),
            Error::PermissionDenied { operation } => {
                push_str(&mut text, "permission denied: ");
                push_str(&mut text, operation.as_str());
            },
            Error::CupsFailed { why } => {
                push_str(&mut text, "CUPS failed: ");
                push_str(&mut text, why.as_str());
            },
            Error::Internal { why } => {
                push_str(&mut text, "internal error: ");
                push_str(&mut text, why.as_str());
            },
            Error::AddPrinterDiscoveryNotStarted => push_str(
                &mut text,
                "add printer discovery has not started",
            ),
            Error::AddPrinterDiscoveryExpired { .. } => push_str(
                &mut text,
                "add printer discovery has moved on to a newer round",
            ),
            Error::DiscoveredPhysicalPrinterNotFound { printer_id } => {
                push_str(&mut text, "discovered printer not found: ");
                push_str(&mut text, printer_id.as_str());
            },
            Error::PrinterApplicationCandidateNotFound { candidate_id } => {
                push_str(&mut text, "printer application candidate not found: ");
                push_str(&mut text, candidate_id.as_str());
            },
            Error::PrinterApplicationNotFound { application_id } => {
                push_str(&mut text, "printer application not found: ");
                push_str(&mut text, application_id.as_str());
            },
            Error::PrinterApplicationAuthenticationRequired { application_id } => {
                push_str(&mut text, "printer application requires authentication: ");
                push_str(&mut text, application_id.as_str());
            },
            Error::PrinterApplicationUnavailable { application_id } => {
                push_str(&mut text, "printer application unavailable: ");
                push_str(&mut text, application_id.as_str());
            },
            Error::PrinterApplicationOperationNotSupported { application_id, operation } => {
                push_str(&mut text, "printer application ");
                push_str(&mut text, application_id.as_str());
                push_str(&mut text, " does not support ");
                push_str(&mut text, operation.as_str());
            },
            Error::MalformedPrinterApplicationResponse { application_id, operation, why } => {
                push_str(&mut text, "printer application ");
                push_str(&mut text, application_id.as_str());
                push_str(&mut text, " answered ");
                push_str(&mut text, operation.as_str());
                push_str(&mut text, " unreadably: ");
                push_str(&mut text, why.as_str());
            },
            Error::PrinterConfigurationManualActionRequired { why, .. } => {
                push_str(&mut text, "setup has to be finished by hand: ");
                push_str(&mut text, why.as_str());
            },
            Error::PrinterConfigurationRejected { status, why, .. } => {
                push_str(&mut text, "printer configuration rejected (");
                push_str(&mut text, status.as_str());
                push_str(&mut text, "): ");
                push_str(&mut text, why.as_str());
            },
            Error::PrinterConfigurationUnknownOutcome { printer_name, .. } => {
                push_str(&mut text, "could not establish whether the printer was created: ");
                push_str(&mut text, printer_name.as_str());
            },
            Error::DiscoveredPrinterAlreadyConfigured { printer_name, .. } => {
                push_str(&mut text, "the printer is already set up as ");
                push_str(&mut text, printer_name.as_str());
            },
        }
        proof {
            assert(text@ =~= describe_spec(*self));
        }
        string_of(text)
    }
}

} // verus!
