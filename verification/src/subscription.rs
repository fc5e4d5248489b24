//! Asking the local print server to keep a list of the changes worth
//! reporting: what a subscription request says, what its reply settles,
//! which server is asked first, and how long to wait before subscribing
//! again after notifications stop.

use vstd::prelude::*;
use crate::client::{IppStatus, find_attribute, first_named};
use crate::ipp::{IppAttribute, attributes_view};
use crate::text::{chars_of, string_of};

verus! {

/// The local scheduler, where CUPS 2 keeps subscriptions.
pub const SCHEDULER_URI: &'static str = "ipp://localhost/";

pub const CREATE_PRINTER_SUBSCRIPTIONS: u16 = 22;
pub const CREATE_SYSTEM_SUBSCRIPTIONS: u16 = 88;
pub const RENEW_SUBSCRIPTION: u16 = 26;
/// The IPP operation code of `Get-Notifications`.
pub const GET_NOTIFICATIONS: u16 = 28;

/// Long enough that renewing is rare, short enough that a subscription
/// left behind by a crash expires on its own.
pub const LEASE_SECONDS: i32 = 3600;

/// Events are fetched by asking for them.
pub const PULL_METHOD: &'static str = "ippget";

/// How long to wait before subscribing again, at first.
pub const RESUBSCRIBE_DELAY_MS: u64 = 5000;

/// The longest wait before subscribing again.
pub const MAX_RESUBSCRIBE_DELAY_MS: u64 = 300000;

/// How long notifications must have run for the wait to start over.
pub const HEALTHY_MS: u64 = 60000;

/// The events worth waking the interface for.
pub open spec fn notify_events_spec() -> Seq<Seq<char>> {
    seq![
        "job-created"@,
        "job-completed"@,
        "job-progress"@,
        "job-state-changed"@,
        "job-stopped"@,
        "printer-added"@,
        "printer-created"@,
        "printer-deleted"@,
        "printer-modified"@,
        "printer-state-changed"@,
    ]
}

pub open spec fn static_strs(v: Seq<&'static str>) -> Seq<Seq<char>> {
    v.map_values(|s: &'static str| s@)
}

/// The events worth waking the interface for. A server may add whatever
/// it groups with them.
pub fn notify_events() -> (r: Vec<&'static str>)
    ensures
        static_strs(r@) == notify_events_spec(),
{
    let r = vec![
        "job-created",
        "job-completed",
        "job-progress",
        "job-state-changed",
        "job-stopped",
        "printer-added",
        "printer-created",
        "printer-deleted",
        "printer-modified",
        "printer-state-changed",
    ];
    proof {
        assert(static_strs(r@) =~= notify_events_spec());
    }
    r
}

/// A `Create-*-Subscriptions` request.
#[derive(Debug)]
pub struct SubscriptionRequest {
    pub operation: u16,
    /// The operation attribute naming where the subscription is kept.
    pub uri_attribute: &'static str,
    pub uri: String,
    pub pull_method: &'static str,
    pub notify_events: Vec<&'static str>,
    pub lease_seconds: i32,
}

/// The request that subscribes to the events worth reporting on `uri`,
/// named by `uri_attribute`, with `operation`.
pub fn create_request(uri: &str, uri_attribute: &'static str, operation: u16) -> (r: SubscriptionRequest)
    ensures
        r.operation == operation,
        r.uri_attribute@ == uri_attribute@,
        r.uri@ == uri@,
        r.pull_method@ == PULL_METHOD@,
        static_strs(r.notify_events@) == notify_events_spec(),
        r.lease_seconds == LEASE_SECONDS,
{
    SubscriptionRequest {
        operation,
        uri_attribute,
        uri: string_of(chars_of(uri)),
        pull_method: PULL_METHOD,
        notify_events: notify_events(),
        lease_seconds: LEASE_SECONDS,
    }
}

/// Why a subscription request failed.
#[derive(Clone, Debug, PartialEq, Eq)]
pub enum SubscriptionError {
    /// The server wants credentials for the operation.
    PermissionDenied { operation: String },
    /// The server answered with another failing status.
    Status { operation: String, status: IppStatus },
    /// The server accepted the request without naming the subscription.
    MissingId,
    /// The request could not be sent.
    Transport { why: String },
}

/// Whether a reply succeeded: a status asking for credentials, or refusing
/// them, is a permission error, any other failing status is reported with
/// the operation.
pub fn ensure_success(status: IppStatus, operation: &str) -> (r: Result<(), SubscriptionError>)
    ensures
        status.successful() ==> r is Ok,
        !status.successful() && (status is ErrorNotAuthorized || status is ErrorForbidden || status is ErrorNotAuthenticated)
            ==> (r matches Err(SubscriptionError::PermissionDenied { operation: o }) && o@ == operation@),
        !status.successful() && !(status is ErrorNotAuthorized || status is ErrorForbidden || status is ErrorNotAuthenticated)
            ==> (r matches Err(SubscriptionError::Status { operation: o, status: s }) && o@ == operation@ && s == status),
{
    if status.is_successful() {
        return Ok(());
    }
    match status {
        IppStatus::ErrorNotAuthorized | IppStatus::ErrorForbidden | IppStatus::ErrorNotAuthenticated => {
            Err(SubscriptionError::PermissionDenied { operation: string_of(chars_of(operation)) })
        },
        _ => Err(SubscriptionError::Status { operation: string_of(chars_of(operation)), status }),
    }
}

/// A subscription the server keeps.
#[derive(Clone, Debug)]
pub struct Subscription {
    id: i32,
    uri: String,
    uri_attribute: &'static str,
}

impl Subscription {
    pub closed spec fn id_of(&self) -> i32 {
        self.id
    }

    /// The server's number for the subscription.
    pub fn id(&self) -> (r: i32)
        ensures
            r == self.id_of(),
    {
        self.id
    }

    pub closed spec fn uri_of(&self) -> Seq<char> {
        self.uri@
    }

    pub closed spec fn uri_attribute_of(&self) -> Seq<char> {
        self.uri_attribute@
    }

    /// Where the subscription is kept.
    pub fn uri(&self) -> (r: &str)
        ensures
            r@ == self.uri_of(),
    {
        self.uri.as_str()
    }

    /// The operation attribute that names where it is kept.
    pub fn uri_attribute(&self) -> (r: &'static str)
        ensures
            r@ == self.uri_attribute_of(),
    {
        self.uri_attribute
    }

    /// The request that renews the subscription for another lease.
    pub fn renew_request(&self) -> (r: RenewRequest)
        ensures
            r.operation == RENEW_SUBSCRIPTION,
            r.uri_attribute@ == self.uri_attribute_of(),
            r.uri@ == self.uri_of(),
            r.subscription_id == self.id_of(),
            r.lease_seconds == LEASE_SECONDS,
    {
        RenewRequest {
            operation: RENEW_SUBSCRIPTION,
            uri_attribute: self.uri_attribute,
            uri: string_of(chars_of(self.uri.as_str())),
            subscription_id: self.id,
            lease_seconds: LEASE_SECONDS,
        }
    }
}

/// A `Renew-Subscription` request.
#[derive(Debug)]
pub struct RenewRequest {
    pub operation: u16,
    pub uri_attribute: &'static str,
    pub uri: String,
    pub subscription_id: i32,
    pub lease_seconds: i32,
}

/// What the reply to a subscription request settles: a failing status is
/// an error; otherwise the subscription is the one the first
/// `notify-subscription-id` attribute names, kept where it was asked for.
pub fn created(request: &SubscriptionRequest, status: IppStatus, attrs: &Vec<IppAttribute>) -> (r: Result<
    Subscription,
    SubscriptionError,
>)
    ensures
        !status.successful() ==> r is Err && !(r matches Err(SubscriptionError::MissingId)),
        status.successful() ==> match first_named(attributes_view(attrs@), "notify-subscription-id"@) {
            Some(i) => r matches Ok(s) && s.id_of() == attrs@[i].integer && s.uri_of() == request.uri@
                && s.uri_attribute_of() == request.uri_attribute@,
            None => r == Err::<Subscription, SubscriptionError>(SubscriptionError::MissingId),
        },
{
    match ensure_success(status, "Create-Subscription") {
        Err(e) => return Err(e),
        Ok(()) => {},
    }
    match find_attribute(attrs, "notify-subscription-id") {
        Some(i) => Ok(Subscription {
            id: attrs[i].integer,
            uri: string_of(chars_of(request.uri.as_str())),
            uri_attribute: request.uri_attribute,
        }),
        None => Err(SubscriptionError::MissingId),
    }
}

/// The request to try next when subscribing.
#[derive(Debug)]
pub enum SubscribeStep {
    /// Ask this server.
    Ask(SubscriptionRequest),
    /// Subscribing is over.
    Done(Result<Subscription, SubscriptionError>),
}

/// The first request: the scheduler, where CUPS 2 keeps subscriptions.
pub fn first_request() -> (r: SubscriptionRequest)
    ensures
        r.operation == CREATE_PRINTER_SUBSCRIPTIONS,
        r.uri_attribute@ == "printer-uri"@,
        r.uri@ == SCHEDULER_URI@,
        static_strs(r.notify_events@) == notify_events_spec(),
{
    create_request(SCHEDULER_URI, "printer-uri", CREATE_PRINTER_SUBSCRIPTIONS)
}

/// After the scheduler answered: a subscription there settles it; a
/// failure sends the request to the system service of the same server,
/// where CUPS 3 keeps them, when there is one, and is final otherwise.
pub fn after_scheduler(result: Result<Subscription, SubscriptionError>) -> (r: SubscribeStep)
    ensures
        result is Ok ==> (r matches SubscribeStep::Done(d) && d == result),
        result is Err && crate::uri::system_service_uri_spec(SCHEDULER_URI@) is None ==> (r matches SubscribeStep::Done(d)
            && d == result),
        result is Err && crate::uri::system_service_uri_spec(SCHEDULER_URI@) is Some ==> (r matches SubscribeStep::Ask(
            request,
        ) && request.operation == CREATE_SYSTEM_SUBSCRIPTIONS && request.uri_attribute@ == "system-uri"@
            && Some(request.uri@) == crate::uri::system_service_uri_spec(SCHEDULER_URI@)),
{
    match result {
        Ok(s) => SubscribeStep::Done(Ok(s)),
        Err(e) => match crate::uri::system_service_uri(SCHEDULER_URI) {
            Some(system) => SubscribeStep::Ask(create_request(system.as_str(), "system-uri", CREATE_SYSTEM_SUBSCRIPTIONS)),
            None => SubscribeStep::Done(Err(e)),
        },
    }
}

/// After the system service answered: its subscription, or else the
/// scheduler's failure, which is the one that says the most.
pub fn after_system(
    result: Result<Subscription, SubscriptionError>,
    scheduler_error: SubscriptionError,
) -> (r: Result<Subscription, SubscriptionError>)
    ensures
        result is Ok ==> r == result,
        result is Err ==> r == Err::<Subscription, SubscriptionError>(scheduler_error),
{
    match result {
        Ok(s) => Ok(s),
        Err(_) => Err(scheduler_error),
    }
}

/// How long to wait before subscribing again after notifications stopped,
/// and the wait after that: a run that lasted long enough starts the waits
/// over; each wait doubles the next, up to a limit.
pub fn resubscribe_delay(delay_ms: u64, ran_ms: u64) -> (r: (u64, u64))
    requires
        delay_ms <= MAX_RESUBSCRIBE_DELAY_MS,
    ensures
        r.0 == if ran_ms >= HEALTHY_MS { RESUBSCRIBE_DELAY_MS } else { delay_ms },
        r.1 == if 2 * r.0 <= MAX_RESUBSCRIBE_DELAY_MS { 2 * r.0 } else { MAX_RESUBSCRIBE_DELAY_MS as int },
        r.1 <= MAX_RESUBSCRIBE_DELAY_MS,
{
    let wait = if ran_ms >= HEALTHY_MS { RESUBSCRIBE_DELAY_MS } else { delay_ms };
    let doubled = wait * 2;
    let next = if doubled <= MAX_RESUBSCRIBE_DELAY_MS { doubled } else { MAX_RESUBSCRIBE_DELAY_MS };
    (wait, next)
}

} // verus!
