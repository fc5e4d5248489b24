//! Printer Applications as the service knows them: what each can do, the
//! page a person finishes setup on, and how what went wrong with one is
//! reported to a client.

use vstd::prelude::*;
use crate::client::PaError;
use crate::errors::Error;
use crate::text::{
    chars_of, decimal, decimal_exec, push_all, push_str, starts_with, starts_with_exec, string_of,
    trim, trim_char_end, trim_char_end_vec, trim_str, trim_vec,
};
use crate::uri::{is_loopback, is_loopback_host};
use crate::weburl::{opt_string_view, parse_url, parsed_url, set_url_host, set_url_port, url_with_host, url_with_port};

verus! {

/// The IPP operation code of `Get-System-Attributes`.
pub const GET_SYSTEM_ATTRIBUTES: u16 = 0x005B;

/// The IPP operation code of `Get-Printers`.
pub const GET_PRINTERS: u16 = 0x0043;

/// The IPP operation code of `Create-Printer`.
pub const CREATE_PRINTER: u16 = 0x004C;

/// The IPP operation code of `PAPPL-Find-Devices`.
pub const FIND_DEVICES: u16 = 0x402B;

/// The IPP operation code of `PAPPL-Find-Drivers`.
pub const FIND_DRIVERS: u16 = 0x402C;

/// What is known of a Printer Application.
#[derive(Clone, Copy, Debug, PartialEq, Eq, Structural)]
pub enum PrinterApplicationState {
    /// Advertised, not asked anything yet.
    Discovered,
    /// Being asked what it can do.
    Probing,
    /// Can find devices, match drivers and create printers.
    Ready,
    /// Can find devices but not set them up.
    DiscoveryOnly,
    /// Set up through its own web interface only.
    ManualSetupOnly,
    /// Reports no operations at all.
    Unsupported,
    /// Wants credentials.
    AuthenticationRequired,
    /// Could not be reached.
    Unreachable,
    /// Answered in a way that could not be used.
    Failed,
}

/// What a Printer Application's system service says it supports.
#[derive(Clone, Debug, PartialEq, Eq)]
pub struct PrinterApplicationCapabilities {
    /// Operation codes, sorted, each once.
    pub operations_supported: Vec<u16>,
    pub get_printers: bool,
    pub create_printer: bool,
    pub find_devices: bool,
    pub find_drivers: bool,
    pub mandatory_printer_attributes: Vec<String>,
    pub printer_creation_attributes_supported: Vec<String>,
    pub printer_service_types_supported: Vec<String>,
    pub device_uri_schemes_supported: Vec<String>,
}

impl PrinterApplicationCapabilities {
    /// The capabilities that a list of supported operations gives.
    pub fn from_operations(operations: Vec<u16>) -> (r: Self)
        ensures
            r.operations_supported@ == operations@,
            r.get_printers == operations@.contains(GET_PRINTERS),
            r.create_printer == operations@.contains(CREATE_PRINTER),
            r.find_devices == operations@.contains(FIND_DEVICES),
            r.find_drivers == operations@.contains(FIND_DRIVERS),
            r.mandatory_printer_attributes@.len() == 0,
            r.printer_creation_attributes_supported@.len() == 0,
            r.printer_service_types_supported@.len() == 0,
            r.device_uri_schemes_supported@.len() == 0,
    {
        let get_printers = contains_u16(&operations, GET_PRINTERS);
        let create_printer = contains_u16(&operations, CREATE_PRINTER);
        let find_devices = contains_u16(&operations, FIND_DEVICES);
        let find_drivers = contains_u16(&operations, FIND_DRIVERS);
        PrinterApplicationCapabilities {
            operations_supported: operations,
            get_printers,
            create_printer,
            find_devices,
            find_drivers,
            mandatory_printer_attributes: Vec::new(),
            printer_creation_attributes_supported: Vec::new(),
            printer_service_types_supported: Vec::new(),
            device_uri_schemes_supported: Vec::new(),
        }
    }

    pub open spec fn automatic(&self) -> bool {
        self.find_devices && self.find_drivers && self.create_printer
    }

    /// Whether a printer can be set up without a person: the application
    /// finds devices, matches drivers and creates printers.
    pub fn supports_automatic_configuration(&self) -> (r: bool)
        ensures
            r == self.automatic(),
    {
        self.find_devices && self.find_drivers && self.create_printer
    }
}

fn contains_u16(values: &Vec<u16>, wanted: u16) -> (r: bool)
    ensures
        r == values@.contains(wanted),
{
    let mut i: usize = 0;
    while i < values.len()
        invariant
            i <= values.len(),
            forall|j: int| 0 <= j < i ==> values@[j] != wanted,
        decreases values.len() - i,
    {
        if values[i] == wanted {
            assert(values@[i as int] == wanted);
            return true;
        }
        i += 1;
    }
    false
}

/// A Printer Application found on the network or on this machine.
#[derive(Clone, Debug, PartialEq, Eq)]
pub struct PrinterApplication {
    pub id: String,
    pub service_name: String,
    pub hostname: String,
    pub port: u16,
    /// The addresses the advertisement resolved to.
    pub addresses: Vec<String>,
    /// The application's IPP system service.
    pub system_uri: String,
    pub make_and_model: Option<String>,
    /// The ways to reach its system service, as its probe reported them.
    pub endpoints: Vec<crate::probe::SystemEndpoint>,
    pub capabilities: PrinterApplicationCapabilities,
    pub state: PrinterApplicationState,
}

pub open spec fn all_loopback(addresses: Seq<String>) -> bool {
    forall|i: int| 0 <= i < addresses.len() ==> is_loopback(#[trigger] addresses[i]@)
}

impl PrinterApplication {
    /// Whether the application runs on this machine: its host name is a
    /// spelling of this machine, or every address it resolved to is.
    pub open spec fn local(&self) -> bool {
        is_loopback(self.hostname@) || (self.addresses@.len() > 0 && all_loopback(self.addresses@))
    }

    pub fn is_local(&self) -> (r: bool)
        ensures
            r == self.local(),
    {
        if is_loopback_host(self.hostname.as_str()) {
            return true;
        }
        if self.addresses.len() == 0 {
            return false;
        }
        let ghost not_host = !is_loopback(self.hostname@);
        let mut i: usize = 0;
        while i < self.addresses.len()
            invariant
                i <= self.addresses.len(),
                not_host == !is_loopback(self.hostname@),
                not_host,
                forall|j: int| 0 <= j < i ==> is_loopback(#[trigger] self.addresses@[j]@),
            decreases self.addresses.len() - i,
        {
            if !is_loopback_host(self.addresses[i].as_str()) {
                assert(!is_loopback(self.addresses@[i as int]@));
                assert(!all_loopback(self.addresses@));
                assert(!is_loopback(self.hostname@));
                return false;
            }
            i += 1;
        }
        true
    }

    /// Where the application is administered: its IPP system service.
    pub fn administration_uri(&self) -> (r: String)
        ensures
            r@ == self.system_uri@,
    {
        string_of(chars_of(self.system_uri.as_str()))
    }
}

/// The page a person finishes setup on: `http://localhost:{port}/` for an
/// application on this machine; otherwise the advertised host (trimmed,
/// without a trailing dot) and port on a web scheme as secure as the system
/// service's; none without a host.
pub open spec fn web_interface_spec(
    local: bool,
    hostname: Seq<char>,
    port: u16,
    system_uri: Seq<char>,
) -> Option<Seq<char>> {
    if local {
        Some("http://localhost:"@ + decimal(port as nat) + "/"@)
    } else {
        let host = trim_char_end(trim(hostname), '.');
        if host.len() == 0 {
            None
        } else {
            let base = if starts_with(system_uri, "ipps"@) {
                "https://placeholder/"@
            } else {
                "http://placeholder/"@
            };
            match parsed_url(base) {
                None => None,
                Some(parsed) => match url_with_host(parsed.serialization, Some(host)) {
                    None => None,
                    Some(with_host) => url_with_port(with_host, Some(port)),
                },
            }
        }
    }
}

/// Returns an administration page derived from the advertised endpoint.
pub fn application_web_interface(application: &PrinterApplication) -> (r: Option<String>)
    ensures
        opt_string_view(r) == web_interface_spec(
            application.local(),
            application.hostname@,
            application.port,
            application.system_uri@,
        ),
{
    if application.is_local() {
        let mut page = chars_of("http://localhost:");
        push_all(&mut page, &decimal_exec(application.port as u64));
        push_str(&mut page, "/");
        return Some(string_of(page));
    }
    let host = trim_char_end_vec(&trim_vec(&chars_of(application.hostname.as_str())), '.');
    if host.len() == 0 {
        return None;
    }
    let host = string_of(host);
    let base = if starts_with_exec(&chars_of(application.system_uri.as_str()), &chars_of("ipps")) {
        "https://placeholder/"
    } else {
        "http://placeholder/"
    };
    let parsed = parse_url(base)?;
    let with_host = set_url_host(parsed.serialization.as_str(), Some(host.as_str()))?;
    set_url_port(with_host.as_str(), Some(application.port))
}

/// Whether a reported page may be opened: an HTTP or HTTPS URL with a host.
pub open spec fn validated_web_interface_spec(uri: Seq<char>) -> Option<Seq<char>> {
    match parsed_url(trim(uri)) {
        None => None,
        Some(url) => if (url.scheme == "http"@ || url.scheme == "https"@) && (match url.host {
            Some(h) => h.len() > 0,
            None => false,
        }) {
            Some(url.serialization)
        } else {
            None
        },
    }
}

/// Accepts only HTTP(S) URIs with a host, so a reported page cannot launch
/// some other local handler.
pub fn validate_web_interface(uri: &str) -> (r: Option<String>)
    ensures
        opt_string_view(r) == validated_web_interface_spec(uri@),
{
    let trimmed = trim_str(uri);
    let url = parse_url(trimmed.as_str())?;
    let web = crate::text::str_eq(url.scheme.as_str(), "http") || crate::text::str_eq(
        url.scheme.as_str(),
        "https",
    );
    let has_host = match &url.host {
        Some(h) => h.as_str().unicode_len() > 0,
        None => false,
    };
    if web && has_host {
        Some(url.serialization)
    } else {
        None
    }
}

// ------------------------------------------------------------------ errors

/// Why a configuration request could not be resolved against discovery.
#[derive(Clone, Debug, PartialEq, Eq)]
pub enum ResolveError {
    /// No round of discovery has run.
    NotStarted,
    /// The request quoted an older round.
    Expired { generation: u64 },
    /// The row the request named is gone.
    PrinterNotFound,
    /// The candidate the request named is gone.
    CandidateNotFound,
}

/// The client error for a request that did not resolve.
pub fn resolve_error(error: ResolveError, physical_printer_id: &str, candidate_id: &str) -> (r: Error)
    ensures
        match error {
            ResolveError::NotStarted => r is AddPrinterDiscoveryNotStarted,
            ResolveError::Expired { generation } => r == (Error::AddPrinterDiscoveryExpired {
                generation,
            }),
            ResolveError::PrinterNotFound => r matches Error::DiscoveredPhysicalPrinterNotFound {
                printer_id,
            } && printer_id@ == physical_printer_id@,
            ResolveError::CandidateNotFound => r matches Error::PrinterApplicationCandidateNotFound {
                candidate_id: c,
            } && c@ == candidate_id@,
        },
{
    match error {
        ResolveError::NotStarted => Error::AddPrinterDiscoveryNotStarted,
        ResolveError::Expired { generation } => Error::AddPrinterDiscoveryExpired { generation },
        ResolveError::PrinterNotFound => Error::DiscoveredPhysicalPrinterNotFound {
            printer_id: string_of(chars_of(physical_printer_id)),
        },
        ResolveError::CandidateNotFound => Error::PrinterApplicationCandidateNotFound {
            candidate_id: string_of(chars_of(candidate_id)),
        },
    }
}

/// The client error for a failure the application itself caused: it wants
/// credentials, is unreachable, lacks the operation, or answered unreadably.
pub fn application_operation_error(application_id: &str, operation: &str, error: PaError) -> (r:
    Error)
    requires
        !(error is Forbidden) && !(error is Rejected),
    ensures
        match error {
            PaError::AuthenticationRequired => r matches
                Error::PrinterApplicationAuthenticationRequired { application_id: a } && a@
                == application_id@,
            PaError::Unreachable { .. } => r matches Error::PrinterApplicationUnavailable {
                application_id: a,
            } && a@ == application_id@,
            PaError::OperationNotSupported => r matches
                Error::PrinterApplicationOperationNotSupported { application_id: a, operation: o }
                && a@ == application_id@ && o@ == operation@,
            PaError::Malformed { why } => r matches Error::MalformedPrinterApplicationResponse {
                application_id: a,
                operation: o,
                why: w,
            } && a@ == application_id@ && o@ == operation@ && w == why,
            _ => false,
        },
{
    let id = string_of(chars_of(application_id));
    match error {
        PaError::AuthenticationRequired => Error::PrinterApplicationAuthenticationRequired {
            application_id: id,
        },
        PaError::Unreachable { .. } => Error::PrinterApplicationUnavailable { application_id: id },
        PaError::OperationNotSupported => Error::PrinterApplicationOperationNotSupported {
            application_id: id,
            operation: string_of(chars_of(operation)),
        },
        PaError::Malformed { why } => Error::MalformedPrinterApplicationResponse {
            application_id: id,
            operation: string_of(chars_of(operation)),
            why,
        },
        PaError::Forbidden { .. } | PaError::Rejected { .. } => Error::PrinterNotFound,
    }
}

/// The client error a failed printer creation means, for an application
/// with the web interface `web`: a refusal sends the person to the
/// application's own page; a rejection carries the status; anything else
/// is the application's failure at `Create-Printer`. Every one names the
/// application.
pub open spec fn configuration_error_spec(e: Error, application_id: Seq<char>, error: PaError, web: Option<Seq<char>>) -> bool {
    match error {
        PaError::Forbidden { why } => e matches Error::PrinterConfigurationManualActionRequired {
            application_id: a,
            web_interface_uri: u,
            why: w,
        } && a@ == application_id && opt_string_view(u) == web && w == why,
        PaError::Rejected { status, why } => e matches Error::PrinterConfigurationRejected {
            application_id: a,
            status: s,
            why: w,
        } && a@ == application_id && s == status && w == why,
        PaError::AuthenticationRequired => e matches Error::PrinterApplicationAuthenticationRequired {
            application_id: a,
        } && a@ == application_id,
        PaError::Unreachable { .. } => e matches Error::PrinterApplicationUnavailable { application_id: a }
            && a@ == application_id,
        PaError::OperationNotSupported => e matches Error::PrinterApplicationOperationNotSupported {
            application_id: a,
            operation: o,
        } && a@ == application_id && o@ == "Create-Printer"@,
        PaError::Malformed { why } => e matches Error::MalformedPrinterApplicationResponse {
            application_id: a,
            operation: o,
            why: w,
        } && a@ == application_id && o@ == "Create-Printer"@ && w == why,
    }
}

/// The client error for a failed printer creation.
pub fn configuration_error(application_id: &str, error: PaError, web_interface_uri: Option<String>) -> (r:
    Error)
    ensures
        configuration_error_spec(r, application_id@, error, opt_string_view(web_interface_uri)),
{
    match error {
        PaError::Forbidden { why } => Error::PrinterConfigurationManualActionRequired {
            application_id: string_of(chars_of(application_id)),
            web_interface_uri,
            why,
        },
        PaError::Rejected { status, why } => Error::PrinterConfigurationRejected {
            application_id: string_of(chars_of(application_id)),
            status,
            why,
        },
        other => application_operation_error(application_id, "Create-Printer", other),
    }
}

/// The client error for a failed operation other than creation: a refusal
/// is a permission error, a rejection a print-system failure.
pub fn operation_error(application_id: &str, operation: &str, error: PaError) -> (r: Error)
    ensures
        match error {
            PaError::Forbidden { why } => r matches Error::PermissionDenied { operation: text }
                && text@ == operation@ + " through "@ + application_id@ + ": "@ + why@,
            PaError::Rejected { status, why } => r matches Error::CupsFailed { why: text } && text@
                == operation@ + " failed with "@ + status@ + ": "@ + why@,
            PaError::AuthenticationRequired => r is PrinterApplicationAuthenticationRequired,
            PaError::Unreachable { .. } => r is PrinterApplicationUnavailable,
            PaError::OperationNotSupported => r is PrinterApplicationOperationNotSupported,
            PaError::Malformed { .. } => r is MalformedPrinterApplicationResponse,
        },
{
    match error {
        PaError::Forbidden { why } => {
            let mut text = chars_of(operation);
            push_str(&mut text, " through ");
            push_str(&mut text, application_id);
            push_str(&mut text, ": ");
            push_str(&mut text, why.as_str());
            Error::PermissionDenied { operation: string_of(text) }
        },
        PaError::Rejected { status, why } => {
            let mut text = chars_of(operation);
            push_str(&mut text, " failed with ");
            push_str(&mut text, status.as_str());
            push_str(&mut text, ": ");
            push_str(&mut text, why.as_str());
            Error::CupsFailed { why: string_of(text) }
        },
        other => application_operation_error(application_id, operation, other),
    }
}

} // verus!
