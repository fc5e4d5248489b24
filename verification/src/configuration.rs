//! Configuring a discovered printer through the Printer Application chosen:
//! what is checked before anything is sent, and what the outcome becomes
//! for the client and for the receipt the service keeps.

use vstd::prelude::*;
use crate::application::{
    PrinterApplication, application_web_interface, configuration_error, web_interface_spec,
};
use crate::client::PaError;
use crate::create::{CreateOutcome, DEVICE_URI, DRIVER, PrinterToCreate};
use crate::drivers::PaDriverMatch;
use crate::errors::Error;
use crate::identity::PaConfigurationCandidate;
use crate::ipp::{copy_opt, opt_view};
use crate::reconcile::{PendingConfigurationState, PendingPaConfiguration};
use crate::text::{
    chars_of, decimal, decimal_exec, eq_vec, push_all, push_str, string_of, strings_of, trim,
    trim_vec,
};
use crate::weburl::opt_string_view;

verus! {

/// A client's request to configure a discovered printer.
#[derive(Clone, Debug)]
pub struct ConfigureDiscoveredPrinterRequest {
    /// The round of discovery the selection was made in.
    pub discovery_generation: u64,
    pub physical_printer_id: String,
    pub candidate_id: String,
    /// The name the person chose, if any.
    pub requested_display_name: Option<String>,
}

/// How far a configuration has got, as a client sees it.
#[derive(Clone, Debug, PartialEq, Eq)]
pub enum PrinterConfigurationState {
    /// The printer is being created.
    Creating,
    /// Created, waiting for its destination to be advertised.
    AwaitingAdvertisement,
    /// Created and matched to a destination.
    Reconciled,
    /// The device already had a printer in the application.
    AlreadyConfigured,
    /// Setup has to continue in the application's own interface.
    ManualActionRequired,
    /// The outcome could not be established.
    UnknownOutcome,
    /// Setup failed.
    Failed,
}

/// The answer to a configuration request.
#[derive(Clone, Debug)]
pub struct ConfigurePrinterReply {
    pub operation_id: String,
    pub state: PrinterConfigurationState,
    pub configured_printer_name: String,
    pub destination_id: Option<String>,
    pub web_interface_uri: Option<String>,
}

/// The state a client is told for a recorded attempt, and the destination
/// it was matched to.
pub open spec fn reported_state(state: PendingConfigurationState) -> (PrinterConfigurationState, Option<Seq<char>>) {
    match state {
        PendingConfigurationState::AwaitingAdvertisement => (PrinterConfigurationState::AwaitingAdvertisement, None),
        PendingConfigurationState::Reconciled { destination_id } => (
            PrinterConfigurationState::Reconciled,
            Some(destination_id@),
        ),
        PendingConfigurationState::AlreadyConfigured => (PrinterConfigurationState::AlreadyConfigured, None),
        PendingConfigurationState::ManualActionRequired => (PrinterConfigurationState::ManualActionRequired, None),
        PendingConfigurationState::UnknownOutcome => (PrinterConfigurationState::UnknownOutcome, None),
    }
}

/// Answers a client asking how a configuration is going: what the recorded
/// attempt says, or, when no attempt has that operation identifier, an
/// unknown outcome naming it.
pub fn printer_configuration(pending: Option<&PendingPaConfiguration>, operation_id: &str) -> (r: Result<
    ConfigurePrinterReply,
    Error,
>)
    ensures
        match pending {
            None => r matches Err(Error::PrinterConfigurationUnknownOutcome { application_id, printer_name })
                && application_id@.len() == 0 && printer_name@ == operation_id@,
            Some(p) => r matches Ok(reply) && {
                &&& reply.operation_id@ == p.operation_id@
                &&& reply.state == reported_state(p.state).0
                &&& opt_view(reply.destination_id) == reported_state(p.state).1
                &&& reply.configured_printer_name@ == p.configured_printer_name@
                &&& opt_view(reply.web_interface_uri) == opt_view(p.web_interface_uri)
            },
        },
{
    match pending {
        None => Err(Error::PrinterConfigurationUnknownOutcome {
            application_id: string_of(Vec::new()),
            printer_name: string_of(chars_of(operation_id)),
        }),
        Some(p) => {
            let (state, destination_id) = match &p.state {
                PendingConfigurationState::AwaitingAdvertisement => (PrinterConfigurationState::AwaitingAdvertisement, None),
                PendingConfigurationState::Reconciled { destination_id } => (
                    PrinterConfigurationState::Reconciled,
                    Some(string_of(chars_of(destination_id.as_str()))),
                ),
                PendingConfigurationState::AlreadyConfigured => (PrinterConfigurationState::AlreadyConfigured, None),
                PendingConfigurationState::ManualActionRequired => (PrinterConfigurationState::ManualActionRequired, None),
                PendingConfigurationState::UnknownOutcome => (PrinterConfigurationState::UnknownOutcome, None),
            };
            Ok(ConfigurePrinterReply {
                operation_id: string_of(chars_of(p.operation_id.as_str())),
                state,
                configured_printer_name: string_of(chars_of(p.configured_printer_name.as_str())),
                destination_id,
                web_interface_uri: copy_opt(&p.web_interface_uri),
            })
        },
    }
}

/// The name a person asked for, when it says anything.
pub open spec fn chosen_name(requested: Option<Seq<char>>) -> Option<Seq<char>> {
    match requested {
        Some(n) => if trim(n).len() > 0 {
            Some(n)
        } else {
            None
        },
        None => None,
    }
}

/// What a configuration sends once the checks passed.
#[derive(Debug)]
pub struct PreparedConfiguration {
    /// Where the application is administered.
    pub system_uri: String,
    /// What to create.
    pub printer: PrinterToCreate,
    /// The device URIs to try, best first.
    pub routes: Vec<String>,
}

/// Checks a selection against the application and the candidate before
/// anything is sent, and says what to create: the application must create
/// printers itself; a device it already has is reported, not duplicated;
/// there must be one driver to name or a choice to leave to it; and there
/// must be a route to the device. The queue name comes from the person's
/// name, else the make and model, else the displayed name; the description
/// keeps the person's name or the displayed one.
pub fn prepare_configuration(
    application: &PrinterApplication,
    candidate: &PaConfigurationCandidate,
    request: &ConfigureDiscoveredPrinterRequest,
) -> (r: Result<PreparedConfiguration, Error>)
    ensures
        !application.capabilities.automatic() ==> (r matches Err(
            Error::PrinterConfigurationManualActionRequired { application_id, web_interface_uri, why },
        ) && application_id@ == application.id@ && opt_string_view(web_interface_uri) == web_interface_spec(
            application.local(),
            application.hostname@,
            application.port,
            application.system_uri@,
        ) && why@ == "this printer application cannot create printers over IPP"@),
        application.capabilities.automatic() && candidate.driver_match is AlreadyConfigured
            ==> (r matches Err(Error::DiscoveredPrinterAlreadyConfigured { application_id, printer_name })
            && application_id@ == application.id@
            && candidate.driver_match->AlreadyConfigured_printer_name@ == printer_name@),
        application.capabilities.automatic() && !(candidate.driver_match is AlreadyConfigured)
            && candidate.driver_match.creation_driver() is None ==> (r matches Err(
            Error::PrinterConfigurationManualActionRequired { application_id, web_interface_uri, why },
        ) && application_id@ == application.id@ && opt_string_view(web_interface_uri) == web_interface_spec(
            application.local(),
            application.hostname@,
            application.port,
            application.system_uri@,
        ) && why@ == "no single driver matches this printer"@),
        application.capabilities.automatic() && candidate.driver_match.creation_driver() is Some
            && candidate.endpoints@.len() == 0 ==> (r matches Err(
            Error::PrinterApplicationCandidateNotFound { candidate_id },
        ) && candidate_id@ == request.candidate_id@),
        application.capabilities.automatic() && !(candidate.driver_match is AlreadyConfigured)
            && candidate.driver_match.creation_driver() is Some && candidate.endpoints@.len() > 0 ==> r is Ok,
        r matches Ok(prepared) ==> {
            &&& application.capabilities.automatic()
            &&& candidate.driver_match.creation_driver() == Some(prepared.printer.driver@)
            &&& prepared.system_uri@ == application.system_uri@
            &&& prepared.printer.queue_source@ == match chosen_name(
                opt_view(request.requested_display_name),
            ) {
                Some(n) => n,
                None => match candidate.make_and_model {
                    Some(m) => m@,
                    None => candidate.display_name@,
                },
            }
            &&& prepared.printer.display_name@ == match chosen_name(
                opt_view(request.requested_display_name),
            ) {
                Some(n) => n,
                None => candidate.display_name@,
            }
            &&& opt_view(prepared.printer.device_id) == opt_view(candidate.device_id)
            &&& strings_of(prepared.printer.accepted_attributes@) == strings_of(
                application.capabilities.printer_creation_attributes_supported@,
            )
            &&& prepared.printer.supports_get_printers == application.capabilities.get_printers
            &&& prepared.routes@.len() == candidate.endpoints@.len() > 0
            &&& forall|i: int| 0 <= i < prepared.routes@.len() ==> #[trigger] prepared.routes@[i]@
                == candidate.endpoints@[i].device_uri@
        },
{
    if !application.capabilities.supports_automatic_configuration() {
        return Err(
            Error::PrinterConfigurationManualActionRequired {
                application_id: string_of(chars_of(application.id.as_str())),
                web_interface_uri: application_web_interface(application),
                why: string_of(chars_of("this printer application cannot create printers over IPP")),
            },
        );
    }
    match &candidate.driver_match {
        PaDriverMatch::AlreadyConfigured { printer_name } => {
            return Err(
                Error::DiscoveredPrinterAlreadyConfigured {
                    application_id: string_of(chars_of(application.id.as_str())),
                    printer_name: string_of(chars_of(printer_name.as_str())),
                },
            );
        },
        _ => {},
    }
    let driver = match candidate.driver_match.driver_for_creation() {
        Some(d) => string_of(chars_of(d)),
        None => {
            return Err(
                Error::PrinterConfigurationManualActionRequired {
                    application_id: string_of(chars_of(application.id.as_str())),
                    web_interface_uri: application_web_interface(application),
                    why: string_of(chars_of("no single driver matches this printer")),
                },
            );
        },
    };
    if candidate.preferred_endpoint().is_none() {
        return Err(
            Error::PrinterApplicationCandidateNotFound {
                candidate_id: string_of(chars_of(request.candidate_id.as_str())),
            },
        );
    }
    let chosen: Option<String> = match &request.requested_display_name {
        Some(n) => if trim_vec(&chars_of(n.as_str())).len() > 0 {
            Some(string_of(chars_of(n.as_str())))
        } else {
            None
        },
        None => None,
    };
    let queue_source = match &chosen {
        Some(n) => string_of(chars_of(n.as_str())),
        None => match &candidate.make_and_model {
            Some(m) => string_of(chars_of(m.as_str())),
            None => string_of(chars_of(candidate.display_name.as_str())),
        },
    };
    let display_name = match chosen {
        Some(n) => n,
        None => string_of(chars_of(candidate.display_name.as_str())),
    };
    let mut accepted: Vec<String> = Vec::new();
    let supported = &application.capabilities.printer_creation_attributes_supported;
    let mut i: usize = 0;
    while i < supported.len()
        invariant
            i <= supported.len(),
            strings_of(accepted@) == strings_of(supported@.take(i as int)),
        decreases supported.len() - i,
    {
        accepted.push(string_of(chars_of(supported[i].as_str())));
        proof {
            assert(strings_of(supported@.take(i + 1)) =~= strings_of(supported@.take(i as int)).push(
                supported@[i as int]@,
            ));
        }
        i += 1;
    }
    assert(supported@.take(supported.len() as int) =~= supported@);
    Ok(
        PreparedConfiguration {
            system_uri: application.administration_uri(),
            printer: PrinterToCreate {
                driver,
                device_id: match &candidate.device_id {
                    Some(d) => Some(string_of(chars_of(d.as_str()))),
                    None => None,
                },
                queue_source,
                display_name,
                accepted_attributes: accepted,
                supports_get_printers: application.capabilities.get_printers,
            },
            routes: candidate.route_uris(),
        },
    )
}

/// The identifier of a configuration attempt: the application, the round,
/// and the printer's name.
pub open spec fn operation_id_spec(application_id: Seq<char>, generation: u64, printer_name: Seq<char>) -> Seq<char> {
    application_id + seq![':'] + decimal(generation as nat) + seq![':'] + printer_name
}

pub fn operation_id(application_id: &str, generation: u64, printer_name: &str) -> (r: String)
    ensures
        r@ == operation_id_spec(application_id@, generation, printer_name@),
{
    let mut id = chars_of(application_id);
    id.push(':');
    push_all(&mut id, &decimal_exec(generation));
    id.push(':');
    push_str(&mut id, printer_name);
    string_of(id)
}

/// What a configuration attempt ends with: the client's answer, the
/// receipt to keep (whenever the outcome names a printer), and whether the
/// destinations should be looked at again now.
#[derive(Debug)]
pub struct FinishedConfiguration {
    pub reply: Result<ConfigurePrinterReply, Error>,
    pub receipt: Option<PendingPaConfiguration>,
    pub refresh_destinations: bool,
}

fn receipt(
    application: &PrinterApplication,
    candidate_id: &str,
    request: &ConfigureDiscoveredPrinterRequest,
    printer_name: &str,
    state: PendingConfigurationState,
    printer_uri: Option<String>,
    printer_uuid: Option<String>,
    web_interface_uri: Option<String>,
    now_ms: u64,
) -> (r: PendingPaConfiguration)
    ensures
        r.operation_id@ == operation_id_spec(
            application.id@,
            request.discovery_generation,
            printer_name@,
        ),
        r.printer_application_id@ == application.id@,
        r.physical_printer_id@ == request.physical_printer_id@,
        r.candidate_id@ == candidate_id@,
        r.configured_printer_name@ == printer_name@,
        r.expected_printer_uri == printer_uri,
        r.expected_printer_uuid == printer_uuid,
        r.application_endpoint matches Some((h, p)) && h@ == application.hostname@ && p
            == application.port,
        r.web_interface_uri == web_interface_uri,
        r.created_at_ms == now_ms,
        r.state == state,
{
    PendingPaConfiguration {
        operation_id: operation_id(
            application.id.as_str(),
            request.discovery_generation,
            printer_name,
        ),
        printer_application_id: string_of(chars_of(application.id.as_str())),
        physical_printer_id: string_of(chars_of(request.physical_printer_id.as_str())),
        candidate_id: string_of(chars_of(candidate_id)),
        configured_printer_name: string_of(chars_of(printer_name)),
        expected_printer_uri: printer_uri,
        expected_printer_uuid: printer_uuid,
        application_endpoint: Some(
            (string_of(chars_of(application.hostname.as_str())), application.port),
        ),
        web_interface_uri,
        created_at_ms: now_ms,
        state,
    }
}

/// Whether the unsupported attributes of a rejection send the person to
/// the application: the driver or the device URI was refused, which is
/// the last route exhausted. The first of them in the sorted list decides
/// the wording.
pub open spec fn route_attribute(names: Seq<Seq<char>>) -> Option<int>
    decreases names.len(),
{
    if names.len() == 0 {
        None
    } else {
        match route_attribute(names.drop_last()) {
            Some(i) => Some(i),
            None => if names.last() == DRIVER@ || names.last() == DEVICE_URI@ {
                Some(names.len() - 1)
            } else {
                None
            },
        }
    }
}

fn route_attribute_exec(names: &Vec<String>) -> (r: Option<usize>)
    ensures
        match r {
            Some(i) => i < names.len() && route_attribute(strings_of(names@)) == Some(i as int),
            None => route_attribute(strings_of(names@)) is None,
        },
{
    let ghost all = strings_of(names@);
    let mut i: usize = 0;
    while i < names.len()
        invariant
            i <= names.len(),
            all == strings_of(names@),
            route_attribute(all.take(i as int)) is None,
        decreases names.len() - i,
    {
        proof {
            assert(all.take(i + 1).drop_last() =~= all.take(i as int));
            assert(all.take(i + 1).last() == all[i as int]);
        }
        let n = chars_of(names[i].as_str());
        if eq_vec(&n, &chars_of(DRIVER)) || eq_vec(&n, &chars_of(DEVICE_URI)) {
            proof {
                lemma_route_attribute_prefix(all, i as int + 1);
            }
            return Some(i);
        }
        i += 1;
    }
    assert(all.take(names.len() as int) =~= all);
    None
}

pub proof fn lemma_route_attribute_prefix(names: Seq<Seq<char>>, k: int)
    requires
        0 <= k <= names.len(),
        route_attribute(names.take(k)) is Some,
    ensures
        route_attribute(names) == route_attribute(names.take(k)),
    decreases names.len() - k,
{
    if k < names.len() {
        assert(names.take(k + 1).drop_last() =~= names.take(k));
        lemma_route_attribute_prefix(names, k + 1);
    } else {
        assert(names.take(k) =~= names);
    }
}

/// The names joined with `, `.
pub open spec fn joined(names: Seq<Seq<char>>) -> Seq<char>
    decreases names.len(),
{
    if names.len() == 0 {
        Seq::empty()
    } else if names.len() == 1 {
        names[0]
    } else {
        joined(names.drop_last()) + ", "@ + names.last()
    }
}

fn join_names(names: &Vec<String>) -> (r: String)
    ensures
        r@ == joined(strings_of(names@)),
{
    let ghost all = strings_of(names@);
    let mut out: Vec<char> = Vec::new();
    let mut i: usize = 0;
    while i < names.len()
        invariant
            i <= names.len(),
            all == strings_of(names@),
            out@ == joined(all.take(i as int)),
        decreases names.len() - i,
    {
        proof {
            assert(all.take(i + 1).drop_last() =~= all.take(i as int));
            assert(all.take(i + 1).last() == all[i as int]);
        }
        if i > 0 {
            push_str(&mut out, ", ");
        } else {
            assert(all.take(1) =~= seq![all[0]]);
        }
        push_str(&mut out, names[i].as_str());
        i += 1;
    }
    assert(all.take(names.len() as int) =~= all);
    string_of(out)
}

/// Turns the outcome of a configuration attempt into the client's answer
/// and the receipt to keep. A created printer waits for its advertisement;
/// a device that already had one, or an outcome that could not be
/// established, keeps a receipt and is an error; a refused driver or
/// device URI sends the person to the application; any other refusal, or
/// failure, is reported as it came.
pub fn finish_configuration(
    application: &PrinterApplication,
    candidate_id: &str,
    request: &ConfigureDiscoveredPrinterRequest,
    outcome: Result<CreateOutcome, PaError>,
    now_ms: u64,
) -> (r: FinishedConfiguration)
    ensures
        r.refresh_destinations <==> outcome matches Ok(CreateOutcome::Created { .. }),
        match outcome {
            Ok(CreateOutcome::Created { printer_name, printer_uri, printer_uuid }) => {
                &&& r.reply matches Ok(reply)
                &&& reply.state == PrinterConfigurationState::AwaitingAdvertisement
                &&& reply.configured_printer_name@ == printer_name@
                &&& reply.destination_id is None
                &&& reply.operation_id@ == operation_id_spec(
                    application.id@,
                    request.discovery_generation,
                    printer_name@,
                )
                &&& opt_string_view(reply.web_interface_uri) == web_interface_spec(
                    application.local(),
                    application.hostname@,
                    application.port,
                    application.system_uri@,
                )
                &&& r.receipt matches Some(p) && p.state
                    == PendingConfigurationState::AwaitingAdvertisement
                    && p.configured_printer_name@ == printer_name@ && opt_view(
                    p.expected_printer_uri,
                ) == opt_view(printer_uri) && opt_view(p.expected_printer_uuid) == opt_view(
                    printer_uuid,
                ) && p.operation_id@ == reply.operation_id@ && p.created_at_ms == now_ms
            },
            Ok(CreateOutcome::AlreadyConfigured { printer_name }) => {
                &&& r.reply matches Err(Error::DiscoveredPrinterAlreadyConfigured {
                    application_id: a,
                    printer_name: n,
                }) && n@ == printer_name@ && a@ == application.id@
                &&& r.receipt matches Some(p) && p.state
                    == PendingConfigurationState::AlreadyConfigured
                    && p.configured_printer_name@ == printer_name@
                    && p.operation_id@ == operation_id_spec(application.id@, request.discovery_generation, printer_name@)
                    && p.candidate_id@ == candidate_id@ && p.printer_application_id@ == application.id@
            },
            Ok(CreateOutcome::Rejected { status, why, unsupported_attributes }) => {
                &&& r.receipt is None
                &&& match route_attribute(strings_of(unsupported_attributes@)) {
                    Some(i) => r.reply matches Err(
                        Error::PrinterConfigurationManualActionRequired { application_id: a, web_interface_uri: u, why: w },
                    ) && a@ == application.id@ && opt_string_view(u) == web_interface_spec(
                        application.local(),
                        application.hostname@,
                        application.port,
                        application.system_uri@,
                    ) && w@ == if strings_of(unsupported_attributes@)[i] == DRIVER@ {
                        "the printer application rejected the selected driver"@
                    } else {
                        "the printer application rejected its own device URI for this printer"@
                    },
                    None => r.reply matches Err(
                        Error::PrinterConfigurationRejected { application_id: a, status: s, why: w },
                    ) && a@ == application.id@ && s == status && w@ == if why@.len() == 0 {
                        "unsupported attributes: "@ + joined(strings_of(unsupported_attributes@))
                    } else {
                        why@
                    },
                }
            },
            Ok(CreateOutcome::UnknownOutcome { printer_name, .. }) => {
                &&& r.reply matches Err(Error::PrinterConfigurationUnknownOutcome {
                    application_id: a,
                    printer_name: n,
                }) && n@ == printer_name@ && a@ == application.id@
                &&& r.receipt matches Some(p) && p.state == PendingConfigurationState::UnknownOutcome
                    && p.configured_printer_name@ == printer_name@
                    && p.operation_id@ == operation_id_spec(application.id@, request.discovery_generation, printer_name@)
                    && p.candidate_id@ == candidate_id@ && p.printer_application_id@ == application.id@
            },
            Err(error) => r.receipt is None && (r.reply matches Err(e) && crate::application::configuration_error_spec(
                e,
                application.id@,
                error,
                web_interface_spec(
                    application.local(),
                    application.hostname@,
                    application.port,
                    application.system_uri@,
                ),
            )),
        },
{
    let web_interface_uri = application_web_interface(application);
    match outcome {
        Ok(CreateOutcome::Created { printer_name, printer_uri, printer_uuid }) => {
            let kept = receipt(
                application,
                candidate_id,
                request,
                printer_name.as_str(),
                PendingConfigurationState::AwaitingAdvertisement,
                copy_opt(&printer_uri),
                copy_opt(&printer_uuid),
                copy_opt(&web_interface_uri),
                now_ms,
            );
            let operation_id = string_of(chars_of(kept.operation_id.as_str()));
            FinishedConfiguration {
                reply: Ok(
                    ConfigurePrinterReply {
                        operation_id,
                        state: PrinterConfigurationState::AwaitingAdvertisement,
                        configured_printer_name: printer_name,
                        destination_id: None,
                        web_interface_uri,
                    },
                ),
                receipt: Some(kept),
                refresh_destinations: true,
            }
        },
        Ok(CreateOutcome::AlreadyConfigured { printer_name }) => {
            let kept = receipt(
                application,
                candidate_id,
                request,
                printer_name.as_str(),
                PendingConfigurationState::AlreadyConfigured,
                None,
                None,
                web_interface_uri,
                now_ms,
            );
            FinishedConfiguration {
                reply: Err(
                    Error::DiscoveredPrinterAlreadyConfigured {
                        application_id: string_of(chars_of(application.id.as_str())),
                        printer_name,
                    },
                ),
                receipt: Some(kept),
                refresh_destinations: false,
            }
        },
        Ok(CreateOutcome::Rejected { status, why, unsupported_attributes }) => {
            match route_attribute_exec(&unsupported_attributes) {
                Some(i) => {
                    let reason = if eq_vec(
                        &chars_of(unsupported_attributes[i].as_str()),
                        &chars_of(DRIVER),
                    ) {
                        "the printer application rejected the selected driver"
                    } else {
                        "the printer application rejected its own device URI for this printer"
                    };
                    FinishedConfiguration {
                        reply: Err(
                            Error::PrinterConfigurationManualActionRequired {
                                application_id: string_of(chars_of(application.id.as_str())),
                                web_interface_uri,
                                why: string_of(chars_of(reason)),
                            },
                        ),
                        receipt: None,
                        refresh_destinations: false,
                    }
                },
                None => {
                    let why = if why.as_str().unicode_len() == 0 {
                        let mut text = chars_of("unsupported attributes: ");
                        push_str(&mut text, join_names(&unsupported_attributes).as_str());
                        string_of(text)
                    } else {
                        why
                    };
                    FinishedConfiguration {
                        reply: Err(
                            Error::PrinterConfigurationRejected {
                                application_id: string_of(chars_of(application.id.as_str())),
                                status,
                                why,
                            },
                        ),
                        receipt: None,
                        refresh_destinations: false,
                    }
                },
            }
        },
        Ok(CreateOutcome::UnknownOutcome { printer_name, .. }) => {
            let kept = receipt(
                application,
                candidate_id,
                request,
                printer_name.as_str(),
                PendingConfigurationState::UnknownOutcome,
                None,
                None,
                web_interface_uri,
                now_ms,
            );
            FinishedConfiguration {
                reply: Err(
                    Error::PrinterConfigurationUnknownOutcome {
                        application_id: string_of(chars_of(application.id.as_str())),
                        printer_name,
                    },
                ),
                receipt: Some(kept),
                refresh_destinations: false,
            }
        },
        Err(error) => FinishedConfiguration {
            reply: Err(configuration_error(application.id.as_str(), error, web_interface_uri)),
            receipt: None,
            refresh_destinations: false,
        },
    }
}

} // verus!
