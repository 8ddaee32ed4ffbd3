//! Hybrid post-quantum handshake and adaptive routing core for a
//! terminating reverse proxy.
//!
//! The crate couples a classical/post-quantum hybrid key-establishment
//! handshake to a routing engine: per-endpoint circuit breakers, a
//! token-bucket rate limiter, a bounded connection pool and a
//! strategy-driven route selector.  An EDIFACT interchange parser used by
//! the legacy gateway lives in [`edi`].

use vstd::prelude::*;

pub mod breaker;
pub mod controller;
pub mod crypto;
pub mod edi;
pub mod handshake;
pub mod limiter;
pub mod pool;
pub mod routing;

verus! {

/// Error taxonomy shared by the whole pipeline.  Every terminal failure of
/// a connection is attributable to exactly one of these kinds.
#[derive(Clone, Copy, PartialEq, Eq, Structural, Debug)]
pub enum ErrorKind {
    /// Signature, verification or derivation failure; terminal, never retried.
    CryptoError,
    /// Malformed or out-of-order message; terminal, connection dropped.
    ProtocolViolation,
    /// Transport failure; terminal for the current connection.
    IoError,
    /// No eligible route, or pool or concurrency limit reached.
    ResourceExhausted,
    /// Admission denied by the rate limiter.
    RateExceeded,
    /// Handshake or connect exceeded its deadline.
    Timeout,
}

impl ErrorKind {
    /// Stable label for the error counter tagged by kind.
    pub fn label(&self) -> (r: &'static str)
        ensures
            r@ == match self {
                ErrorKind::CryptoError => "crypto_error"@,
                ErrorKind::ProtocolViolation => "protocol_violation"@,
                ErrorKind::IoError => "io_error"@,
                ErrorKind::ResourceExhausted => "resource_exhausted"@,
                ErrorKind::RateExceeded => "rate_exceeded"@,
                ErrorKind::Timeout => "timeout"@,
            },
    {
        match self {
            ErrorKind::CryptoError => "crypto_error",
            ErrorKind::ProtocolViolation => "protocol_violation",
            ErrorKind::IoError => "io_error",
            ErrorKind::ResourceExhausted => "resource_exhausted",
            ErrorKind::RateExceeded => "rate_exceeded",
            ErrorKind::Timeout => "timeout",
        }
    }
}

} // verus!
