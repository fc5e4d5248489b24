//! The printers service that runs inside a process, without a daemon.

use vstd::prelude::*;

verus! {

/// How many device scans may run at once when nothing else is asked for.
pub const DEFAULT_SCAN_CONCURRENCY: usize = 4;

/// The service state a process keeps when it serves printers itself.
#[derive(Debug)]
pub struct Server {
    scan_concurrency: usize,
}

impl Server {
    /// How many device scans this server lets run at once.
    pub closed spec fn scan_limit(&self) -> nat {
        self.scan_concurrency as nat
    }

    /// Creates a printer service with an empty in-memory state.
    pub fn new() -> (r: Self)
        ensures
            r.scan_limit() == DEFAULT_SCAN_CONCURRENCY,
    {
        Self::with_scan_concurrency(DEFAULT_SCAN_CONCURRENCY)
    }

    /// Creates a printer service that lets at most `scan_concurrency` device
    /// scans run at once; asking for none still allows one.
    pub fn with_scan_concurrency(scan_concurrency: usize) -> (r: Self)
        ensures
            r.scan_limit() == if scan_concurrency == 0 { 1 } else { scan_concurrency as nat },
    {
        let limit = if scan_concurrency == 0 { 1 } else { scan_concurrency };
        Server { scan_concurrency: limit }
    }

    /// How many device scans this server lets run at once.
    pub fn scan_concurrency(&self) -> (r: usize)
        ensures
            r == self.scan_limit(),
    {
        self.scan_concurrency
    }
}

} // verus!
