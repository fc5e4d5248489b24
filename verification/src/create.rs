//! `Create-Printer`: what is asked of a Printer Application, and what its
//! answer means. The requests themselves are sent by the caller; every
//! decision about what to send and what an answer says is made here.

use vstd::prelude::*;
use crate::client::{
    IppResponse, PaError, bounded, bounded_spec, check_status, find_attribute, first_named,
};
use crate::configure::{
    printer_name_from_display_name, printer_name_spec, unique_name_spec, unique_printer_name,
    lemma_name_shape, well_formed_name, suffix_cuts_ok, MAX_PRINTER_NAME_LENGTH,
};
use crate::ipp::{
    IppAttribute, IppAttributeView, IppGroup, RequestAttribute, ValueTag, attributes_view, opt_view,
    request_view,
};
use crate::printers::{
    ConfiguredPrinter, ConfiguredPrinterView, index_by_device_uri, index_by_name, name_taken,
    position_by_device_uri, position_by_name, printers_view,
};
use crate::text::{
    chars_of, eq_vec, push_str, sorted_distinct, str_eq, string_of, strings_of, strictly_sorted,
};

verus! {

/// The only value PAPPL accepts for `printer-service-type`.
pub const PRINTER_SERVICE_TYPE: &'static str = "print";

/// The attribute naming the device to configure.
pub const DEVICE_URI: &'static str = "smi55357-device-uri";

/// The attribute naming the driver to use.
pub const DRIVER: &'static str = "smi55357-driver";

/// The attribute carrying the device's IEEE-1284 identification.
pub const DEVICE_ID: &'static str = "printer-device-id";

/// The attribute carrying a printer's readable description.
pub const PRINTER_INFO: &'static str = "printer-info";

/// What a Printer Application was asked to create.
#[derive(Clone, Debug)]
pub struct CreatePrinterRequest {
    pub printer_name: String,
    /// The description shown to a user, kept separate from the queue name.
    pub printer_info: Option<String>,
    /// The exact URI the owning application reported for this device.
    pub device_uri: String,
    /// The driver name to use, or `auto` when the application may choose.
    pub driver: String,
    /// The device ID, passed through so the application can validate the match.
    pub device_id: Option<String>,
    /// The optional attributes this application said it accepts at creation.
    pub accepted_attributes: Vec<String>,
}

impl CreatePrinterRequest {
    /// Whether the application accepts an optional attribute: it does when it
    /// named none at all, or named this one.
    pub open spec fn accepts_spec(self, attribute: Seq<char>) -> bool {
        self.accepted_attributes@.len() == 0 || strings_of(self.accepted_attributes@).contains(
            attribute,
        )
    }

    pub fn accepts(&self, attribute: &str) -> (r: bool)
        ensures
            r == self.accepts_spec(attribute@),
    {
        if self.accepted_attributes.len() == 0 {
            return true;
        }
        let wanted = chars_of(attribute);
        let ghost all = strings_of(self.accepted_attributes@);
        let mut i: usize = 0;
        while i < self.accepted_attributes.len()
            invariant
                i <= self.accepted_attributes.len(),
                all == strings_of(self.accepted_attributes@),
                wanted@ == attribute@,
                forall|j: int| 0 <= j < i ==> all[j] != attribute@,
            decreases self.accepted_attributes.len() - i,
        {
            if eq_vec(&chars_of(self.accepted_attributes[i].as_str()), &wanted) {
                assert(all[i as int] == attribute@);
                return true;
            }
            i += 1;
        }
        false
    }
}

/// How a create attempt ended.
#[derive(Clone, Debug)]
pub enum CreateOutcome {
    /// The printer was created.
    Created { printer_name: String, printer_uri: Option<String>, printer_uuid: Option<String> },
    /// A printer for this device already existed.
    AlreadyConfigured { printer_name: String },
    /// The application refused, and named attributes it could not accept.
    Rejected { status: String, why: String, unsupported_attributes: Vec<String> },
    /// The sent request has an unknown outcome and must not be retried.
    UnknownOutcome { printer_name: String, why: String },
}

impl CreateOutcome {
    pub open spec fn route_refused(self) -> bool {
        match self {
            CreateOutcome::Rejected { unsupported_attributes, .. } => strings_of(
                unsupported_attributes@,
            ).contains(DEVICE_URI@),
            _ => false,
        }
    }

    /// Returns whether the application refused this route to the device
    /// rather than the request itself.
    pub fn device_route_was_refused(&self) -> (r: bool)
        ensures
            r == self.route_refused(),
    {
        match self {
            CreateOutcome::Rejected { unsupported_attributes, .. } => {
                let wanted = chars_of(DEVICE_URI);
                let ghost all = strings_of(unsupported_attributes@);
                let ghost refused = self.route_refused();
                assert(refused == all.contains(DEVICE_URI@));
                let mut i: usize = 0;
                while i < unsupported_attributes.len()
                    invariant
                        i <= unsupported_attributes.len(),
                        all == strings_of(unsupported_attributes@),
                        refused == all.contains(DEVICE_URI@),
                        refused == self.route_refused(),
                        wanted@ == DEVICE_URI@,
                        forall|j: int| 0 <= j < i ==> all[j] != DEVICE_URI@,
                    decreases unsupported_attributes.len() - i,
                {
                    if eq_vec(&chars_of(unsupported_attributes[i].as_str()), &wanted) {
                        assert(all[i as int] == DEVICE_URI@);
                        assert(all.contains(DEVICE_URI@));
                        return true;
                    }
                    i += 1;
                }
                assert(!all.contains(DEVICE_URI@));
                false
            },
            _ => false,
        }
    }
}

/// The attributes a `Create-Printer` request carries, in the order they
/// are sent: in the operation group the service type, the device URI and
/// the driver (PAPPL wants its vendor attributes there); in the printer
/// group the queue name, then the device ID and the description where the
/// request has them and the application accepts them.
pub open spec fn create_attributes_spec(
    request: CreatePrinterRequest,
) -> Seq<(IppGroup, ValueTag, Seq<char>, Seq<char>)> {
    seq![
        (IppGroup::Operation, ValueTag::Keyword, "printer-service-type"@, PRINTER_SERVICE_TYPE@),
        (IppGroup::Operation, ValueTag::Uri, DEVICE_URI@, request.device_uri@),
        (IppGroup::Operation, ValueTag::Keyword, DRIVER@, request.driver@),
        (IppGroup::Printer, ValueTag::Name, "printer-name"@, request.printer_name@),
    ] + (match request.device_id {
        Some(id) => if request.accepts_spec(DEVICE_ID@) {
            seq![(IppGroup::Printer, ValueTag::Text, DEVICE_ID@, id@)]
        } else {
            Seq::empty()
        },
        None => Seq::empty(),
    }) + (match request.printer_info {
        Some(info) => if request.accepts_spec(PRINTER_INFO@) {
            seq![(IppGroup::Printer, ValueTag::Text, PRINTER_INFO@, info@)]
        } else {
            Seq::empty()
        },
        None => Seq::empty(),
    })
}

fn copy_text(s: &String) -> (r: String)
    ensures
        r@ == s@,
{
    string_of(chars_of(s.as_str()))
}

/// The attributes of a `Create-Printer` request for `request`.
pub fn create_printer_attributes(request: &CreatePrinterRequest) -> (r: Vec<RequestAttribute>)
    ensures
        request_view(r@) == create_attributes_spec(*request),
{
    let mut attrs: Vec<RequestAttribute> = Vec::new();
    attrs.push(
        RequestAttribute {
            group: IppGroup::Operation,
            tag: ValueTag::Keyword,
            name: "printer-service-type",
            value: string_of(chars_of(PRINTER_SERVICE_TYPE)),
        },
    );
    attrs.push(
        RequestAttribute {
            group: IppGroup::Operation,
            tag: ValueTag::Uri,
            name: DEVICE_URI,
            value: copy_text(&request.device_uri),
        },
    );
    attrs.push(
        RequestAttribute {
            group: IppGroup::Operation,
            tag: ValueTag::Keyword,
            name: DRIVER,
            value: copy_text(&request.driver),
        },
    );
    attrs.push(
        RequestAttribute {
            group: IppGroup::Printer,
            tag: ValueTag::Name,
            name: "printer-name",
            value: copy_text(&request.printer_name),
        },
    );
    let ghost fixed = request_view(attrs@);
    match &request.device_id {
        Some(id) => {
            if request.accepts(DEVICE_ID) {
                attrs.push(
                    RequestAttribute {
                        group: IppGroup::Printer,
                        tag: ValueTag::Text,
                        name: DEVICE_ID,
                        value: copy_text(id),
                    },
                );
            }
        },
        None => {},
    }
    let ghost with_id = request_view(attrs@);
    match &request.printer_info {
        Some(info) => {
            if request.accepts(PRINTER_INFO) {
                attrs.push(
                    RequestAttribute {
                        group: IppGroup::Printer,
                        tag: ValueTag::Text,
                        name: PRINTER_INFO,
                        value: copy_text(info),
                    },
                );
            }
        },
        None => {},
    }
    assert(request_view(attrs@) =~= create_attributes_spec(*request));
    attrs
}

/// The names of the attributes an answer lists as unsupported, in `String`
/// order, each once.
pub open spec fn unsupported_names(attrs: Seq<IppAttributeView>) -> Set<Seq<char>> {
    Set::new(
        |n: Seq<char>|
            exists|i: int|
                0 <= i < attrs.len() && attrs[i].group == IppGroup::Unsupported && #[trigger] attrs[i].name
                    == Some(n),
    )
}

/// Returns the unsupported attributes an answer names, sorted and each once.
pub fn unsupported_attributes(attrs: &Vec<IppAttribute>) -> (r: Vec<String>)
    ensures
        strictly_sorted(strings_of(r@)),
        forall|n: Seq<char>| strings_of(r@).contains(n) <==> unsupported_names(
            attributes_view(attrs@),
        ).contains(n),
{
    let ghost all = attributes_view(attrs@);
    let mut names: Vec<String> = Vec::new();
    let mut i: usize = 0;
    while i < attrs.len()
        invariant
            i <= attrs.len(),
            all == attributes_view(attrs@),
            forall|n: Seq<char>| strings_of(names@).contains(n) <==> exists|k: int|
                0 <= k < i && all[k].group == IppGroup::Unsupported && #[trigger] all[k].name
                    == Some(n),
        decreases attrs.len() - i,
    {
        let ghost before = strings_of(names@);
        assert(all[i as int] == attrs@[i as int]@);
        if attrs[i].group == IppGroup::Unsupported {
            match &attrs[i].name {
                Some(n) => {
                    names.push(copy_text(n));
                    proof {
                        assert(strings_of(names@) =~= before.push(n@));
                        assert forall|m: Seq<char>| strings_of(names@).contains(m) <==> exists|k: int|
                            0 <= k < i + 1 && all[k].group == IppGroup::Unsupported
                                && #[trigger] all[k].name == Some(m) by {
                            crate::text::lemma_push_contains(before, n@, m);
                            if m == n@ {
                                assert(all[i as int].name == Some(m));
                            }
                        }
                    }
                },
                None => {},
            }
        }
        i += 1;
    }
    let r = sorted_distinct(names);
    proof {
        assert forall|n: Seq<char>| strings_of(r@).contains(n) <==> unsupported_names(all).contains(
            n,
        ) by {
            if unsupported_names(all).contains(n) {
                let k = choose|k: int|
                    0 <= k < all.len() && all[k].group == IppGroup::Unsupported
                        && #[trigger] all[k].name == Some(n);
            }
        }
    }
    r
}

/// The first string value of the first attribute with this name, bounded.
pub open spec fn response_text(attrs: Seq<IppAttributeView>, name: Seq<char>) -> Option<Seq<char>> {
    match first_named(attrs, name) {
        Some(i) => match attrs[i].text {
            Some(t) => Some(bounded_spec(t)),
            None => None,
        },
        None => None,
    }
}

fn response_text_exec(attrs: &Vec<IppAttribute>, name: &str) -> (r: Option<String>)
    ensures
        opt_view(r) == response_text(attributes_view(attrs@), name@),
{
    match find_attribute(attrs, name) {
        Some(i) => {
            assert(attributes_view(attrs@)[i as int] == attrs@[i as int]@);
            match &attrs[i].text {
                Some(t) => Some(bounded(copy_text(t))),
                None => None,
            }
        },
        None => None,
    }
}

/// Whether `outcome` is what a successful `Create-Printer` answer with the
/// attributes `attrs` says was created: the name the application gave the
/// printer (the requested one when it gave none), and the URI and UUID it
/// reported.
pub open spec fn is_created_outcome(outcome: CreateOutcome, request: CreatePrinterRequest, attrs: Seq<IppAttributeView>) -> bool {
    outcome matches CreateOutcome::Created { printer_name, printer_uri, printer_uuid } && printer_name@
        == match response_text(attrs, "printer-name"@) {
        Some(n) => n,
        None => request.printer_name@,
    } && opt_view(printer_uri) == response_text(attrs, "printer-uri-supported"@) && opt_view(printer_uuid)
        == response_text(attrs, "printer-uuid"@)
}

/// What a successful `Create-Printer` answer says was created.
pub fn created_outcome(request: &CreatePrinterRequest, attrs: &Vec<IppAttribute>) -> (r: CreateOutcome)
    ensures
        is_created_outcome(r, *request, attributes_view(attrs@)),
{
    let printer_name = match response_text_exec(attrs, "printer-name") {
        Some(n) => n,
        None => copy_text(&request.printer_name),
    };
    CreateOutcome::Created {
        printer_name,
        printer_uri: response_text_exec(attrs, "printer-uri-supported"),
        printer_uuid: response_text_exec(attrs, "printer-uuid"),
    }
}

/// What to do after sending `Create-Printer`.
#[derive(Debug)]
pub enum CreateStep {
    /// The attempt has ended.
    Finished(Result<CreateOutcome, PaError>),
    /// The outcome is not known yet: look at the application's printers, and
    /// report this outcome if the requested one is not among them.
    LookForExisting(CreateOutcome),
}

/// What the reply to `Create-Printer` means. A lost reply may hide a
/// printer that was created, and PAPPL may create a printer before it
/// reports an unsupported attribute, so both send the caller to look
/// before anything is retried.
pub fn after_create_reply(request: &CreatePrinterRequest, reply: Result<IppResponse, PaError>) -> (r:
    CreateStep)
    ensures
        match reply {
            Err(PaError::Unreachable { why }) => r matches CreateStep::LookForExisting(
                CreateOutcome::UnknownOutcome { printer_name, why: w },
            ) && printer_name@ == request.printer_name@ && w == why,
            Err(other) => r matches CreateStep::Finished(Err(e)) && e == other,
            Ok(response) => if response.status.successful() {
                r matches CreateStep::Finished(Ok(o)) && is_created_outcome(
                    o,
                    *request,
                    attributes_view(response.attributes@),
                )
            } else {
                if crate::client::is_refusal(response.status) {
                    r matches CreateStep::LookForExisting(
                        CreateOutcome::Rejected { status, why, unsupported_attributes },
                    ) && crate::client::status_error(
                        PaError::Rejected { status, why },
                        response.status,
                        response.code,
                        attributes_view(response.attributes@),
                    ) && strictly_sorted(strings_of(unsupported_attributes@)) && forall|n: Seq<char>|
                        strings_of(unsupported_attributes@).contains(n) <==> unsupported_names(
                            attributes_view(response.attributes@),
                        ).contains(n)
                } else {
                    r matches CreateStep::Finished(Err(e)) && crate::client::status_error(
                        e,
                        response.status,
                        response.code,
                        attributes_view(response.attributes@),
                    )
                }
            },
        },
{
    match reply {
        Err(PaError::Unreachable { why }) => CreateStep::LookForExisting(
            CreateOutcome::UnknownOutcome { printer_name: copy_text(&request.printer_name), why },
        ),
        Err(other) => CreateStep::Finished(Err(other)),
        Ok(response) => {
            match check_status(response.status, response.code, &response.attributes) {
                Ok(()) => CreateStep::Finished(Ok(created_outcome(request, &response.attributes))),
                Err(PaError::Rejected { status, why }) => CreateStep::LookForExisting(
                    CreateOutcome::Rejected {
                        status,
                        why,
                        unsupported_attributes: unsupported_attributes(&response.attributes),
                    },
                ),
                Err(other) => CreateStep::Finished(Err(other)),
            }
        },
    }
}

/// The printer a request produced, found among the application's printers
/// by the exact device URI, then by the requested name; when the printers
/// could not be read or the printer is not among them, `otherwise`.
pub open spec fn existing_printer(
    printers: Seq<ConfiguredPrinterView>,
    device_uri: Seq<char>,
    name: Seq<char>,
) -> Option<int> {
    match index_by_device_uri(printers, device_uri) {
        Some(i) => Some(i),
        None => index_by_name(printers, name),
    }
}

/// Returns the printer this request produced, or `otherwise` if it produced none.
pub fn created_or_rejected(
    request: &CreatePrinterRequest,
    printers: Result<Vec<ConfiguredPrinter>, PaError>,
    otherwise: CreateOutcome,
) -> (r: CreateOutcome)
    ensures
        match printers {
            Ok(list) => match existing_printer(
                printers_view(list@),
                request.device_uri@,
                request.printer_name@,
            ) {
                Some(i) => r matches CreateOutcome::Created { printer_name, printer_uri, printer_uuid }
                    && printer_name@ == list@[i]@.name && opt_view(printer_uri) == list@[i]@.printer_uri
                    && opt_view(printer_uuid) == list@[i]@.printer_uuid,
                None => r == otherwise,
            },
            Err(_) => r == otherwise,
        },
{
    let list = match printers {
        Ok(list) => list,
        Err(_) => {
            return otherwise;
        },
    };
    let found = match position_by_device_uri(&list, request.device_uri.as_str()) {
        Some(i) => Some(i),
        None => position_by_name(&list, request.printer_name.as_str()),
    };
    match found {
        Some(i) => {
            let existing = &list[i];
            CreateOutcome::Created {
                printer_name: copy_text(&existing.name),
                printer_uri: match &existing.printer_uri {
                    Some(u) => Some(copy_text(u)),
                    None => None,
                },
                printer_uuid: match &existing.printer_uuid {
                    Some(u) => Some(copy_text(u)),
                    None => None,
                },
            }
        },
        None => otherwise,
    }
}

/// What to ask an application to create, independent of the route it is
/// asked over.
#[derive(Clone, Debug)]
pub struct PrinterToCreate {
    pub driver: String,
    pub device_id: Option<String>,
    /// What the queue name is derived from.
    pub queue_source: String,
    /// The readable description, used only where the application accepts one.
    pub display_name: String,
    pub accepted_attributes: Vec<String>,
    /// Whether the application can list the printers it has.
    pub supports_get_printers: bool,
}

/// What to do about one route to a device, given the printers the
/// application already has.
#[derive(Debug)]
pub enum CreationPlan {
    /// Nothing is sent: the attempt ends with this outcome.
    Settled(CreateOutcome),
    /// Send this request.
    Send(CreatePrinterRequest),
}

/// Decides, before anything is sent over a route, whether the device
/// already has a printer in the application (by the exact device URI), and
/// otherwise which request to send: a queue name derived from the queue
/// source and free in the application, the readable description, the
/// route's device URI, the driver, the device ID and the accepted
/// attributes. Running out of free names is an error rather than a loop.
pub fn plan_creation(existing: &Vec<ConfiguredPrinter>, device_uri: &str, printer: &PrinterToCreate) -> (r:
    Result<CreationPlan, PaError>)
    ensures
        match index_by_device_uri(printers_view(existing@), device_uri@) {
            Some(i) => r matches Ok(CreationPlan::Settled(CreateOutcome::AlreadyConfigured {
                printer_name,
            })) && printer_name@ == existing@[i]@.name,
            None => match unique_name_spec(
                printers_view(existing@),
                printer_name_spec(printer.queue_source@),
            ) {
                None => r matches Err(PaError::Malformed { .. }),
                Some(name) => r matches Ok(CreationPlan::Send(request)) && request.printer_name@
                    == name && opt_view(request.printer_info) == Some(printer.display_name@)
                    && request.device_uri@ == device_uri@ && request.driver@ == printer.driver@
                    && opt_view(request.device_id) == opt_view(printer.device_id)
                    && strings_of(request.accepted_attributes@) == strings_of(
                    printer.accepted_attributes@,
                ),
            },
        },
{
    match position_by_device_uri(existing, device_uri) {
        Some(i) => {
            return Ok(
                CreationPlan::Settled(
                    CreateOutcome::AlreadyConfigured { printer_name: copy_text(&existing[i].name) },
                ),
            );
        },
        None => {},
    }
    let base = printer_name_from_display_name(printer.queue_source.as_str());
    proof {
        lemma_name_shape(printer.queue_source@);
        crate::configure::lemma_charset_ascii(base@);
        assert(crate::configure::room_for(2) >= 0) by {
            crate::text::lemma_decimal_digits(2);
        }
        assert(crate::configure::room_for(10) >= 0) by {
            crate::text::lemma_decimal_digits(10);
        }
        crate::text::lemma_ascii_widths(base@, crate::configure::room_for(2));
        crate::text::lemma_ascii_widths(base@, crate::configure::room_for(10));
    }
    match unique_printer_name(base.as_str(), existing) {
        None => {
            let mut why = chars_of("could not find an unused printer name based on '");
            push_str(&mut why, base.as_str());
            push_str(&mut why, "'");
            Err(PaError::malformed(string_of(why)))
        },
        Some(printer_name) => {
            let mut accepted: Vec<String> = Vec::new();
            let mut i: usize = 0;
            while i < printer.accepted_attributes.len()
                invariant
                    i <= printer.accepted_attributes.len(),
                    strings_of(accepted@) == strings_of(printer.accepted_attributes@.take(i as int)),
                decreases printer.accepted_attributes.len() - i,
            {
                accepted.push(copy_text(&printer.accepted_attributes[i]));
                proof {
                    assert(strings_of(printer.accepted_attributes@.take(i + 1)) =~= strings_of(
                        printer.accepted_attributes@.take(i as int),
                    ).push(printer.accepted_attributes@[i as int]@));
                }
                i += 1;
            }
            assert(printer.accepted_attributes@.take(printer.accepted_attributes.len() as int)
                =~= printer.accepted_attributes@);
            Ok(
                CreationPlan::Send(
                    CreatePrinterRequest {
                        printer_name,
                        printer_info: Some(copy_text(&printer.display_name)),
                        device_uri: string_of(chars_of(device_uri)),
                        driver: copy_text(&printer.driver),
                        device_id: match &printer.device_id {
                            Some(d) => Some(copy_text(d)),
                            None => None,
                        },
                        accepted_attributes: accepted,
                    },
                ),
            )
        },
    }
}

/// Whether an attempt over one route ends the search for a route: only a
/// route the application refused, or one that could not be reached, lets
/// the next route be tried; any other outcome may already have created the
/// printer and must stand.
pub open spec fn settles_spec(outcome: Result<CreateOutcome, PaError>) -> bool {
    match outcome {
        Ok(o) => !o.route_refused(),
        Err(PaError::Unreachable { .. }) => false,
        Err(_) => true,
    }
}

pub fn route_settles(outcome: &Result<CreateOutcome, PaError>) -> (r: bool)
    ensures
        r == settles_spec(*outcome),
{
    match outcome {
        Ok(o) => !o.device_route_was_refused(),
        Err(PaError::Unreachable { .. }) => false,
        Err(_) => true,
    }
}

/// How an attempt ends once every route was tried: as the last route
/// ended, or, when there was no route at all, as an error.
pub fn routes_exhausted(last: Option<Result<CreateOutcome, PaError>>) -> (r: Result<
    CreateOutcome,
    PaError,
>)
    ensures
        match last {
            Some(outcome) => r == outcome,
            None => r matches Err(PaError::Malformed { why }) && why@
                == "the selected printer has no usable endpoint"@,
        },
{
    match last {
        Some(outcome) => outcome,
        None => Err(
            PaError::malformed(string_of(chars_of("the selected printer has no usable endpoint"))),
        ),
    }
}

} // verus!
