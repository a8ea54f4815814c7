//! A wall-clock bound on a piece of work.

use vstd::prelude::*;
use vstd::string::StringExecFns;

verus! {

/// `inner`, to be given up once `timeout_ms` milliseconds have passed.
pub struct Timeout<T> {
    pub inner: T,
    pub timeout_ms: u64,
}

impl<T> Timeout<T> {
    pub fn new(inner: T, timeout_ms: u64) -> (r: Timeout<T>)
        ensures
            r.inner == inner,
            r.timeout_ms == timeout_ms,
    {
        Timeout { inner, timeout_ms }
    }

    /// Whether the bound is reached after `elapsed_ms` milliseconds.
    pub fn has_expired(&self, elapsed_ms: u64) -> (r: bool)
        ensures
            r == (elapsed_ms >= self.timeout_ms),
    {
        elapsed_ms >= self.timeout_ms
    }
}

/// The error of work that ran past its bound.
#[derive(Clone, Copy, Debug, PartialEq, Eq, Structural)]
pub struct Expired;

impl Expired {
    /// The error's message.
    pub fn message(&self) -> (r: String)
        ensures
            r@ == "expired"@,
    {
        String::from_str("expired")
    }
}

/// Puts a bound of a fixed number of milliseconds on what it wraps.
#[derive(Clone, Copy, Debug, PartialEq, Eq, Structural)]
pub struct TimeoutLayer(pub u64);

impl TimeoutLayer {
    pub fn new(delay_ms: u64) -> (r: Self)
        ensures
            r.0 == delay_ms,
    {
        TimeoutLayer(delay_ms)
    }

    /// Wraps `service` with this layer's bound.
    pub fn layer<S>(&self, service: S) -> (r: Timeout<S>)
        ensures
            r.inner == service,
            r.timeout_ms == self.0,
    {
        Timeout::new(service, self.0)
    }
}

} // verus!
