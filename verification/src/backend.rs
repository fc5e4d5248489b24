//! Which service the printer screens talk to.

use vstd::prelude::*;
use std::sync::Arc;
use crate::errors::Error;
use crate::server::Server;
use crate::text::{chars_of, string_of};

verus! {

/// Errors returned by backend requests.
///
/// Service errors remain structured so setup-page responses can be handled
/// separately.
#[derive(Debug)]
pub enum BackendError {
    /// The backend is unavailable.
    Unavailable(String),
    /// The backend returned a service error.
    Service(Error),
}

impl BackendError {
    /// The text a person is shown for this error: the reason given for an
    /// unavailable backend, or the service error's description.
    pub fn describe(&self) -> (r: String)
        ensures
            self matches BackendError::Unavailable(why) ==> r@ == why@,
    {
        match self {
            BackendError::Unavailable(why) => string_of(chars_of(why.as_str())),
            BackendError::Service(error) => error.describe(),
        }
    }
}

/// Backend used by printer UI requests.
#[derive(Clone)]
pub enum Backend {
    /// Connects to the daemon.
    Daemon,
    /// Runs an embedded server.
    Embedded(Arc<Server>),
}

impl Default for Backend {
    fn default() -> (r: Self)
        ensures
            r is Daemon,
    {
        Backend::Daemon
    }
}

/// The setting that forces one backend, when a person has chosen one.
pub open spec fn forced_choice(setting: Option<Seq<char>>) -> Option<bool> {
    match setting {
        Some(s) => if s == seq!['d', 'a', 'e', 'm', 'o', 'n'] {
            Some(true)
        } else if s == seq!['e', 'm', 'b', 'e', 'd', 'd', 'e', 'd'] {
            Some(false)
        } else {
            None
        },
        None => None,
    }
}

impl Backend {
    /// Creates an embedded backend around a fresh server.
    pub fn embedded() -> (r: Self)
        ensures
            r matches Backend::Embedded(server) && server.scan_limit()
                == crate::server::DEFAULT_SCAN_CONCURRENCY,
    {
        Backend::Embedded(Arc::new(Server::new()))
    }

    /// The backend used when no daemon answers: a server in this process.
    pub fn fallback() -> (r: Self)
        ensures
            r matches Backend::Embedded(server) && server.scan_limit()
                == crate::server::DEFAULT_SCAN_CONCURRENCY,
    {
        Self::embedded()
    }

    /// The backend a person forced with the backend setting (`daemon` or
    /// `embedded`), if the setting holds one of those words.
    pub fn forced(setting: Option<&str>) -> (r: Option<Self>)
        ensures
            forced_choice(match setting { Some(s) => Some(s@), None => None }) matches Some(
                daemon,
            ) ==> r matches Some(b) && (b is Daemon) == daemon,
            forced_choice(match setting { Some(s) => Some(s@), None => None }) is None
                ==> r is None,
    {
        match setting {
            Some(s) => {
                let v = chars_of(s);
                let daemon = chars_of("daemon");
                let embedded = chars_of("embedded");
                proof {
                    reveal_strlit("daemon");
                    reveal_strlit("embedded");
                    assert(daemon@ =~= seq!['d', 'a', 'e', 'm', 'o', 'n']);
                    assert(embedded@ =~= seq!['e', 'm', 'b', 'e', 'd', 'd', 'e', 'd']);
                }
                if crate::text::eq_vec(&v, &daemon) {
                    Some(Backend::Daemon)
                } else if crate::text::eq_vec(&v, &embedded) {
                    Some(Self::embedded())
                } else {
                    None
                }
            },
            None => None,
        }
    }

    /// The backend chosen once the daemon has been tried: the daemon when it
    /// answered, a server in this process otherwise.
    pub fn after_probe(daemon_answered: bool) -> (r: Self)
        ensures
            daemon_answered <==> r is Daemon,
    {
        if daemon_answered {
            Backend::Daemon
        } else {
            Self::fallback()
        }
    }

    /// Whether this backend is a server running in this process.
    pub fn is_embedded(&self) -> (r: bool)
        ensures
            r <==> self is Embedded,
    {
        match self {
            Backend::Daemon => false,
            Backend::Embedded(_) => true,
        }
    }
}

/// The first wait before the event feed tries the daemon again, in milliseconds.
pub const RETRY_DELAY_MS: u64 = 1000;

/// The longest wait between two tries of the event feed, in milliseconds.
pub const RETRY_DELAY_MAX_MS: u64 = 30000;

/// The bounded doubling of the wait between tries of the daemon.
pub open spec fn doubled_delay(wait_ms: int) -> int {
    if 2 * wait_ms > RETRY_DELAY_MAX_MS { RETRY_DELAY_MAX_MS as int } else { 2 * wait_ms }
}

/// One step of the event feed's reconnection to the daemon: how long to wait
/// now, and the wait to carry to the next try. A connection that delivered an
/// event starts the waits over; otherwise the current wait is used. Either
/// way the wait carried forward is twice the one used, never more than the
/// longest wait.
pub fn retry_wait(delay_ms: u64, heard_something: bool) -> (r: (u64, u64))
    ensures
        r.0 == if heard_something { RETRY_DELAY_MS } else { delay_ms },
        r.1 == doubled_delay(r.0 as int),
        r.1 <= RETRY_DELAY_MAX_MS,
{
    let wait = if heard_something { RETRY_DELAY_MS } else { delay_ms };
    let next = if wait > RETRY_DELAY_MAX_MS / 2 { RETRY_DELAY_MAX_MS } else { wait * 2 };
    (wait, next)
}

} // verus!
