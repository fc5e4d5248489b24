//! Talking to a Printer Application's IPP System Service: how its answers
//! are classified, how long each kind of request may take, and how much of
//! a reply is read.

use vstd::prelude::*;
use crate::ipp::{IppAttribute, IppAttributeView, attributes_view, opt_view};
use crate::text::{
    byte_prefix, chars_of, fit_count_exec, lemma_fit_count, push_str, slice_of, string_of, trim,
    trim_str, utf8_len,
};

verus! {

/// How long to allow for connecting to a Printer Application, in milliseconds.
pub const CONNECT_TIMEOUT_MS: i32 = 2000;

/// How long to allow a device scan to run, in milliseconds.
pub const DEVICE_SCAN_TIMEOUT_MS: u64 = 45000;

/// How long to allow for operations that only consult local state, in milliseconds.
pub const QUERY_TIMEOUT_MS: u64 = 15000;

/// How long to allow for creating a printer, in milliseconds.
pub const CREATE_TIMEOUT_MS: u64 = 30000;

/// Caps how many collections of a response are read.
pub const MAX_COLLECTIONS: usize = 512;

/// Caps the length, in bytes, of a string read out of a response.
pub const MAX_STRING_LENGTH: usize = 1024;

/// Why an operation against a Printer Application did not produce a result.
#[derive(Clone, Debug)]
pub enum PaError {
    /// The application could not be reached, or stopped responding.
    Unreachable { why: String },
    /// The application wants credentials.
    AuthenticationRequired,
    /// The application refused the request outright.
    Forbidden { why: String },
    /// The application does not implement the operation.
    OperationNotSupported,
    /// The application answered with a status that stops the flow.
    Rejected { status: String, why: String },
    /// The application answered, but the response did not follow the protocol.
    Malformed { why: String },
}

impl PaError {
    /// A response that did not follow the protocol, for the reason given.
    pub fn malformed(why: String) -> (r: Self)
        ensures
            r == (PaError::Malformed { why }),
    {
        PaError::Malformed { why }
    }
}

/// The status an IPP response carried.
#[derive(Clone, Copy, Debug, PartialEq, Eq, Structural)]
pub enum IppStatus {
    /// Successful (`successful-ok`).
    Success,
    OkIgnoredOrSubstituted,
    OkConflicting,
    ErrorBadRequest,
    ErrorForbidden,
    ErrorNotAuthenticated,
    ErrorNotAuthorized,
    ErrorNotPossible,
    ErrorTimeout,
    ErrorNotFound,
    ErrorGone,
    ErrorRequestEntity,
    ErrorRequestValue,
    ErrorDocumentFormatNotSupported,
    ErrorConflicting,
    ErrorPrinterIsDeactivated,
    ErrorTooManyJobs,
    ErrorInternalError,
    ErrorOperationNotSupported,
}

impl IppStatus {
    pub open spec fn successful(self) -> bool {
        self is Success || self is OkIgnoredOrSubstituted || self is OkConflicting
    }

    /// Whether the status reports success.
    pub fn is_successful(&self) -> (r: bool)
        ensures
            r == self.successful(),
    {
        match self {
            IppStatus::Success | IppStatus::OkIgnoredOrSubstituted | IppStatus::OkConflicting => true,
            _ => false,
        }
    }

    /// The status's name as the IPP library spells it in debug output.
    pub open spec fn name_spec(self) -> &'static str {
        match self {
            IppStatus::Success => "Ok",
            IppStatus::OkIgnoredOrSubstituted => "OkIgnoredOrSubstituted",
            IppStatus::OkConflicting => "OkConflicting",
            IppStatus::ErrorBadRequest => "ErrorBadRequest",
            IppStatus::ErrorForbidden => "ErrorForbidden",
            IppStatus::ErrorNotAuthenticated => "ErrorNotAuthenticated",
            IppStatus::ErrorNotAuthorized => "ErrorNotAuthorized",
            IppStatus::ErrorNotPossible => "ErrorNotPossible",
            IppStatus::ErrorTimeout => "ErrorTimeout",
            IppStatus::ErrorNotFound => "ErrorNotFound",
            IppStatus::ErrorGone => "ErrorGone",
            IppStatus::ErrorRequestEntity => "ErrorRequestEntity",
            IppStatus::ErrorRequestValue => "ErrorRequestValue",
            IppStatus::ErrorDocumentFormatNotSupported => "ErrorDocumentFormatNotSupported",
            IppStatus::ErrorConflicting => "ErrorConflicting",
            IppStatus::ErrorPrinterIsDeactivated => "ErrorPrinterIsDeactivated",
            IppStatus::ErrorTooManyJobs => "ErrorTooManyJobs",
            IppStatus::ErrorInternalError => "ErrorInternalError",
            IppStatus::ErrorOperationNotSupported => "ErrorOperationNotSupported",
        }
    }

    /// The status's name as the IPP library spells it in debug output.
    pub fn name(&self) -> (r: &'static str)
        ensures
            r == self.name_spec(),
    {
        match self {
            IppStatus::Success => "Ok",
            IppStatus::OkIgnoredOrSubstituted => "OkIgnoredOrSubstituted",
            IppStatus::OkConflicting => "OkConflicting",
            IppStatus::ErrorBadRequest => "ErrorBadRequest",
            IppStatus::ErrorForbidden => "ErrorForbidden",
            IppStatus::ErrorNotAuthenticated => "ErrorNotAuthenticated",
            IppStatus::ErrorNotAuthorized => "ErrorNotAuthorized",
            IppStatus::ErrorNotPossible => "ErrorNotPossible",
            IppStatus::ErrorTimeout => "ErrorTimeout",
            IppStatus::ErrorNotFound => "ErrorNotFound",
            IppStatus::ErrorGone => "ErrorGone",
            IppStatus::ErrorRequestEntity => "ErrorRequestEntity",
            IppStatus::ErrorRequestValue => "ErrorRequestValue",
            IppStatus::ErrorDocumentFormatNotSupported => "ErrorDocumentFormatNotSupported",
            IppStatus::ErrorConflicting => "ErrorConflicting",
            IppStatus::ErrorPrinterIsDeactivated => "ErrorPrinterIsDeactivated",
            IppStatus::ErrorTooManyJobs => "ErrorTooManyJobs",
            IppStatus::ErrorInternalError => "ErrorInternalError",
            IppStatus::ErrorOperationNotSupported => "ErrorOperationNotSupported",
        }
    }
}

/// One lower-case hexadecimal digit.
pub open spec fn hex_digit(d: int) -> char {
    if d < 10 {
        (('0' as u32) + d) as char
    } else {
        (('a' as u32) + d - 10) as char
    }
}

/// Four lower-case hexadecimal digits, as `{:04x}` writes a 16-bit value.
pub open spec fn hex4(code: u16) -> Seq<char> {
    seq![
        hex_digit((code / 4096) as int),
        hex_digit(((code / 256) % 16) as int),
        hex_digit(((code / 16) % 16) as int),
        hex_digit((code % 16) as int),
    ]
}

fn hex_digit_exec(d: u16) -> (r: char)
    requires
        d < 16,
    ensures
        r == hex_digit(d as int),
{
    if d < 10 {
        ((d as u8) + 48) as char
    } else {
        ((d as u8) + 87) as char
    }
}

/// How a rejected status is written: the status's name, then its code in
/// hexadecimal, as in `ErrorBadRequest (0x0400)`.
pub fn status_label(status: IppStatus, code: u16) -> (r: String)
    ensures
        r@ == status.name_spec()@ + seq![' ', '(', '0', 'x'] + hex4(code) + seq![')'],
{
    let mut text: Vec<char> = Vec::new();
    push_str(&mut text, status.name());
    let ghost named = text@;
    text.push(' ');
    text.push('(');
    text.push('0');
    text.push('x');
    text.push(hex_digit_exec(code / 4096));
    text.push(hex_digit_exec((code / 256) % 16));
    text.push(hex_digit_exec((code / 16) % 16));
    text.push(hex_digit_exec(code % 16));
    text.push(')');
    assert(text@ =~= named + seq![' ', '(', '0', 'x'] + hex4(code) + seq![')']);
    string_of(text)
}

/// The attribute an IPP lookup by name finds: the first with that name.
pub open spec fn first_named(attrs: Seq<IppAttributeView>, name: Seq<char>) -> Option<int>
    decreases attrs.len(),
{
    if attrs.len() == 0 {
        None
    } else {
        match first_named(attrs.drop_last(), name) {
            Some(i) => Some(i),
            None => if attrs.last().name == Some(name) {
                Some(attrs.len() - 1)
            } else {
                None
            },
        }
    }
}

/// What a `status-message` attribute says, trimmed, when it says anything.
pub open spec fn status_message_spec(attrs: Seq<IppAttributeView>) -> Option<Seq<char>> {
    match first_named(attrs, seq!['s', 't', 'a', 't', 'u', 's', '-', 'm', 'e', 's', 's', 'a', 'g', 'e']) {
        Some(i) => match attrs[i].text {
            Some(t) => if trim(t).len() > 0 { Some(trim(t)) } else { None },
            None => None,
        },
        None => None,
    }
}

/// Finds the first attribute with the given name.
pub fn find_attribute(attrs: &Vec<IppAttribute>, name: &str) -> (r: Option<usize>)
    ensures
        r matches Some(i) ==> i < attrs.len(),
        match r {
            Some(i) => first_named(attributes_view(attrs@), name@) == Some(i as int),
            None => first_named(attributes_view(attrs@), name@) is None,
        },
{
    let wanted = chars_of(name);
    let mut i: usize = 0;
    while i < attrs.len()
        invariant
            i <= attrs.len(),
            wanted@ == name@,
            first_named(attributes_view(attrs@.take(i as int)), name@) is None,
        decreases attrs.len() - i,
    {
        let hit = match &attrs[i].name {
            Some(n) => crate::text::eq_vec(&chars_of(n.as_str()), &wanted),
            None => false,
        };
        proof {
            let pre = attributes_view(attrs@.take(i + 1));
            assert(pre.drop_last() =~= attributes_view(attrs@.take(i as int)));
            assert(pre.last() == attrs@[i as int]@);
            assert(attributes_view(attrs@).take(i + 1) =~= pre);
        }
        if hit {
            proof {
                lemma_first_named_prefix(attributes_view(attrs@), name@, i as int + 1);
            }
            return Some(i);
        }
        i += 1;
    }
    assert(attrs@.take(attrs.len() as int) =~= attrs@);
    assert(attributes_view(attrs@.take(attrs.len() as int)) == attributes_view(attrs@));
    None
}

/// The first match in a prefix is the first match in the whole list.
pub proof fn lemma_first_named_prefix(attrs: Seq<IppAttributeView>, name: Seq<char>, k: int)
    requires
        0 <= k <= attrs.len(),
        first_named(attrs.take(k), name) is Some,
    ensures
        first_named(attrs, name) == first_named(attrs.take(k), name),
    decreases attrs.len() - k,
{
    if k < attrs.len() {
        assert(attrs.take(k + 1).drop_last() =~= attrs.take(k));
        lemma_first_named_prefix(attrs, name, k + 1);
    } else {
        assert(attrs.take(k) =~= attrs);
    }
}

/// Returns the human-readable reason a Printer Application gave for a status.
pub fn status_message(attrs: &Vec<IppAttribute>) -> (r: Option<String>)
    ensures
        opt_view(r) == status_message_spec(attributes_view(attrs@)),
{
    proof {
        reveal_strlit("status-message");
        assert("status-message"@ =~= seq![
            's', 't', 'a', 't', 'u', 's', '-', 'm', 'e', 's', 's', 'a', 'g', 'e',
        ]);
    }
    match find_attribute(attrs, "status-message") {
        Some(i) => {
            assert(attributes_view(attrs@)[i as int] == attrs@[i as int]@);
            match &attrs[i].text {
                Some(t) => {
                    let trimmed = trim_str(t.as_str());
                    if trimmed.as_str().unicode_len() > 0 {
                        Some(trimmed)
                    } else {
                        None
                    }
                },
                None => None,
            }
        },
        None => None,
    }
}

/// Whether a failing status asks for credentials.
pub open spec fn asks_for_credentials(status: IppStatus) -> bool {
    status is ErrorNotAuthenticated || status is ErrorNotAuthorized
}

/// Whether a failing status is a refusal of the request itself: any
/// failure but a want of credentials, a forbidden request or an
/// unsupported operation.
pub open spec fn is_refusal(status: IppStatus) -> bool {
    !asks_for_credentials(status) && !(status is ErrorForbidden) && !(status is ErrorOperationNotSupported)
}

/// Maps a response status and the reason given with it to an error.
pub fn error_from_status(status: IppStatus, code: u16, message: Option<String>) -> (r: PaError)
    ensures
        asks_for_credentials(status) ==> r is AuthenticationRequired,
        status is ErrorForbidden ==> (r matches PaError::Forbidden { why } && why@ == (
        match message {
            Some(m) => m@,
            None => Seq::<char>::empty(),
        })),
        status is ErrorOperationNotSupported ==> r is OperationNotSupported,
        is_refusal(status) ==> (r matches PaError::Rejected { status: s, why } && s@
            == status.name_spec()@ + seq![' ', '(', '0', 'x'] + hex4(code) + seq![')'] && why@ == (
        match message {
            Some(m) => m@,
            None => Seq::<char>::empty(),
        })),
{
    let why = match message {
        Some(m) => m,
        None => String::new(),
    };
    match status {
        IppStatus::ErrorNotAuthenticated | IppStatus::ErrorNotAuthorized => {
            PaError::AuthenticationRequired
        },
        IppStatus::ErrorForbidden => PaError::Forbidden { why },
        IppStatus::ErrorOperationNotSupported => PaError::OperationNotSupported,
        _ => PaError::Rejected { status: status_label(status, code), why },
    }
}

/// The error a failing status means, with the reason the response gave:
/// credentials wanted, forbidden (with the reason), an operation the peer
/// lacks, or a rejection naming the status and its code (with the reason).
pub open spec fn status_error(e: PaError, status: IppStatus, code: u16, attrs: Seq<IppAttributeView>) -> bool {
    let why = match status_message_spec(attrs) {
        Some(m) => m,
        None => Seq::<char>::empty(),
    };
    if asks_for_credentials(status) {
        e is AuthenticationRequired
    } else if status is ErrorForbidden {
        e matches PaError::Forbidden { why: w } && w@ == why
    } else if status is ErrorOperationNotSupported {
        e is OperationNotSupported
    } else {
        e matches PaError::Rejected { status: s, why: w } && s@ == status.name_spec()@ + seq![' ', '(', '0', 'x']
            + hex4(code) + seq![')'] && w@ == why
    }
}

/// Maps a response status to an error without discarding a successful response.
pub fn check_status(status: IppStatus, code: u16, attrs: &Vec<IppAttribute>) -> (r: Result<
    (),
    PaError,
>)
    ensures
        r is Ok <==> status.successful(),
        r matches Err(e) ==> status_error(e, status, code, attributes_view(attrs@)),
        r matches Err(PaError::Forbidden { why }) ==> why@ == match status_message_spec(
            attributes_view(attrs@),
        ) {
            Some(m) => m,
            None => Seq::<char>::empty(),
        },
        r matches Err(PaError::Rejected { status: s, why }) ==> s@ == status.name_spec()@ + seq![
            ' ',
            '(',
            '0',
            'x',
        ] + hex4(code) + seq![')'] && why@ == match status_message_spec(attributes_view(attrs@)) {
            Some(m) => m,
            None => Seq::<char>::empty(),
        },
        !status.successful() ==> (asks_for_credentials(status) <==> r matches Err(
            PaError::AuthenticationRequired,
        )),
        !status.successful() ==> (status is ErrorForbidden <==> r matches Err(
            PaError::Forbidden { .. },
        )),
        !status.successful() ==> (status is ErrorOperationNotSupported <==> r matches Err(
            PaError::OperationNotSupported,
        )),
        !status.successful() ==> (is_refusal(status) <==> r matches Err(
            PaError::Rejected { .. },
        )),
{
    if status.is_successful() {
        Ok(())
    } else {
        Err(error_from_status(status, code, status_message(attrs)))
    }
}

/// How a request to a Printer Application failed before any answer came.
#[derive(Clone, Debug)]
pub enum TransportFailure {
    /// The peer could not be reached.
    DeviceUnreachable { why: String },
    /// The local print system refused the request for want of permission.
    PermissionDenied { why: String },
    /// Anything else that produced no response at all.
    Other { why: String },
}

/// The error a failed request becomes. A request that produced no response
/// at all is treated as the peer going away, since retrying a
/// printer creation blindly could produce a second printer.
pub fn error_from_transport(failure: TransportFailure) -> (r: PaError)
    ensures
        failure is PermissionDenied <==> r is AuthenticationRequired,
        !(failure is PermissionDenied) <==> r is Unreachable,
{
    match failure {
        TransportFailure::DeviceUnreachable { why } => PaError::Unreachable { why },
        TransportFailure::PermissionDenied { .. } => PaError::AuthenticationRequired,
        TransportFailure::Other { why } => PaError::Unreachable { why },
    }
}

/// Which timeout an operation should use.
#[derive(Clone, Copy, Debug, PartialEq, Eq, Structural)]
pub enum OperationCost {
    /// Consults state the application already has.
    Query,
    /// Rescans hardware.
    DeviceScan,
    /// Opens a device and loads a driver.
    Create,
}

/// How long a request may take to connect and to answer.
#[derive(Clone, Copy, Debug, PartialEq, Eq)]
pub struct IppTimeouts {
    pub connect_ms: i32,
    pub response_ms: u64,
}

impl OperationCost {
    pub open spec fn response_limit(self) -> u64 {
        match self {
            OperationCost::Query => QUERY_TIMEOUT_MS,
            OperationCost::DeviceScan => DEVICE_SCAN_TIMEOUT_MS,
            OperationCost::Create => CREATE_TIMEOUT_MS,
        }
    }

    /// The timeouts for this kind of operation.
    pub fn timeouts(self) -> (r: IppTimeouts)
        ensures
            r.connect_ms == CONNECT_TIMEOUT_MS,
            r.response_ms == self.response_limit(),
    {
        let response_ms = match self {
            OperationCost::Query => QUERY_TIMEOUT_MS,
            OperationCost::DeviceScan => DEVICE_SCAN_TIMEOUT_MS,
            OperationCost::Create => CREATE_TIMEOUT_MS,
        };
        IppTimeouts { connect_ms: CONNECT_TIMEOUT_MS, response_ms }
    }
}

/// What `bounded` keeps of a value.
pub open spec fn bounded_spec(value: Seq<char>) -> Seq<char> {
    byte_prefix(value, MAX_STRING_LENGTH as int)
}

/// Truncates an over-long value rather than rejecting the whole response:
/// a value within the limit is kept whole, a longer one is cut after the
/// last character that still fits, never inside a character.
pub fn bounded(value: String) -> (r: String)
    ensures
        r@ == bounded_spec(value@),
        utf8_len(value@) <= MAX_STRING_LENGTH ==> r@ == value@,
        utf8_len(r@) <= MAX_STRING_LENGTH,
        r@.len() <= value@.len(),
        r@ == value@.take(r@.len() as int),
        r@.len() < value@.len() ==> utf8_len(r@) + crate::text::char_width(value@[r@.len() as int])
            > MAX_STRING_LENGTH,
{
    let chars = chars_of(value.as_str());
    let (keep, _used) = fit_count_exec(&chars, MAX_STRING_LENGTH);
    proof {
        lemma_fit_count(value@, MAX_STRING_LENGTH as int);
    }
    if keep == chars.len() {
        assert(value@.take(keep as int) =~= value@);
        value
    } else {
        string_of(slice_of(&chars, 0, keep))
    }
}

/// An IPP response as the library reads it: its status, the status code,
/// and its attributes in the order they arrived.
#[derive(Clone, Debug)]
pub struct IppResponse {
    pub status: IppStatus,
    pub code: u16,
    pub attributes: Vec<IppAttribute>,
}

} // verus!
