//! Error taxonomy of the certificate-authority core.
//!
//! Every component-level failure is surfaced to the caller unmodified; no
//! certificate is returned on failure.

use vstd::prelude::*;

verus! {

/// The typed failures the core can report, one per failing component rule.
#[derive(Clone, Copy, PartialEq, Eq, Structural, Debug)]
pub enum CaError {
    /// A name attribute value is empty, too long, not printable, or the
    /// attribute key is unrecognized.
    InvalidAttribute,
    /// The serial counter would overflow its configured byte width.
    ExhaustedSerialSpace,
    /// A requested certificate lifetime of zero days.
    InvalidLifetime,
    /// A structurally inconsistent certificate-builder input.
    MalformedInput,
    /// The signing key is incompatible with the requested algorithm.
    SigningKeyMismatch,
    /// An underlying cryptographic failure, propagated.
    SigningFailure,
    /// Certificate issuance was requested before the root was initialized.
    NotInitialized,
}

impl CaError {
    /// A short human-readable description of the failure.
    pub fn describe(&self) -> (r: &'static str)
        ensures
            r@.len() > 0,
    {
        proof {
            reveal_strlit("invalid name attribute");
            reveal_strlit("serial number space exhausted");
            reveal_strlit("certificate lifetime must be positive");
            reveal_strlit("malformed certificate builder input");
            reveal_strlit("signing key incompatible with algorithm");
            reveal_strlit("signing operation failed");
            reveal_strlit("certificate authority not initialized");
        }
        match self {
            CaError::InvalidAttribute => "invalid name attribute",
            CaError::ExhaustedSerialSpace => "serial number space exhausted",
            CaError::InvalidLifetime => "certificate lifetime must be positive",
            CaError::MalformedInput => "malformed certificate builder input",
            CaError::SigningKeyMismatch => "signing key incompatible with algorithm",
            CaError::SigningFailure => "signing operation failed",
            CaError::NotInitialized => "certificate authority not initialized",
        }
    }
}

} // verus!
