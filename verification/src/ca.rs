//! The certificate-authority core: orchestrates the name builder, serial
//! allocator, validity policy, certificate builder and signer to issue a
//! self-signed root and certificates signed by it.

use vstd::prelude::*;
use crate::errors::CaError;
use crate::name::{AttributeType, DistinguishedName, name_wf};
use crate::serial::SerialAllocator;
use crate::validity::{ValidityPolicy, SECONDS_PER_DAY, spec_compute_validity};
use crate::cert::{
    assemble,
    Certificate,
    CertificateRequest,
    Extension,
    SignatureAlgorithm,
    spec_tbs_bytes,
    MAX_PUBLIC_KEY_LEN,
    MAX_EXTENSIONS,
};
use crate::signer::{
    derive_public_key,
    sign_certificate,
    ed25519_accepts,
    ed25519_public_of,
    ED25519_KEY_LEN,
};

verus! {

/// The X.509 version the core issues: version 3, encoded as 2.
pub const CERTIFICATE_VERSION: u8 = 2;

/// The authority: its serial allocator, validity policy, and — once the
/// root is initialized — its root certificate and signing key. The
/// signing key never leaves this structure.
pub struct CaCore {
    allocator: SerialAllocator,
    policy: ValidityPolicy,
    initialized: bool,
    signing_key: Vec<u8>,
    public_key: Vec<u8>,
    root_subject: DistinguishedName,
    root: Option<Certificate>,
}

impl CaCore {
    /// Whether the root has been initialized and issuance is possible.
    pub closed spec fn spec_initialized(&self) -> bool {
        self.initialized
    }

    /// The serial allocator state.
    pub closed spec fn spec_allocator(&self) -> SerialAllocator {
        self.allocator
    }

    /// The validity policy.
    pub closed spec fn spec_policy(&self) -> ValidityPolicy {
        self.policy
    }

    /// The root's raw public key bytes.
    pub closed spec fn spec_public_key(&self) -> Seq<u8> {
        self.public_key@
    }

    /// The root's private signing key bytes.
    pub closed spec fn spec_signing_key(&self) -> Seq<u8> {
        self.signing_key@
    }

    /// The root's subject name entries.
    pub closed spec fn spec_root_subject(&self) -> Seq<(AttributeType, Seq<char>)> {
        self.root_subject@
    }

    /// The root certificate, once initialized.
    pub closed spec fn spec_root(&self) -> Option<Certificate> {
        self.root
    }

    /// The internal consistency an authority keeps: once initialized, it
    /// holds a well-formed self-signed root whose embedded public key is
    /// the one derived from the stored signing key.
    pub open spec fn wf(&self) -> bool {
        &&& (!self.spec_initialized() ==> self.spec_root() is None)
        &&& self.spec_initialized() ==> {
            &&& self.spec_signing_key().len() == ED25519_KEY_LEN
            &&& self.spec_public_key() == ed25519_public_of(self.spec_signing_key())
            &&& name_wf(self.spec_root_subject())
            &&& self.spec_root() is Some
            &&& {
                let c = self.spec_root()->0;
                &&& c.wf()
                &&& c.spec_tbs().issuer@ == self.spec_root_subject()
                &&& c.spec_tbs().subject@ == self.spec_root_subject()
                &&& c.spec_tbs().subject_public_key@ == self.spec_public_key()
            }
        }
    }

    /// A fresh, uninitialized authority over the given allocator and
    /// policy state.
    pub fn new(allocator: SerialAllocator, policy: ValidityPolicy) -> (r: CaCore)
        ensures
            !r.spec_initialized(),
            r.spec_allocator() == allocator,
            r.spec_policy() == policy,
            r.spec_root() is None,
            r.wf(),
    {
        CaCore {
            allocator,
            policy,
            initialized: false,
            signing_key: Vec::new(),
            public_key: Vec::new(),
            root_subject: crate::name::NameBuilder::new().build(),
            root: None,
        }
    }

    /// Whether the root has been initialized and issuance is possible.
    pub fn is_initialized(&self) -> (r: bool)
        ensures
            r == self.spec_initialized(),
    {
        self.initialized
    }

    /// The root certificate, once the root is initialized.
    pub fn root_certificate(&self) -> (r: Option<&Certificate>)
        ensures
            match r {
                Some(c) => self.spec_root() is Some && *c == self.spec_root()->0,
                None => self.spec_root() is None,
            },
    {
        self.root.as_ref()
    }

    /// The root's raw public key bytes; empty before initialization.
    pub fn public_key(&self) -> (r: &Vec<u8>)
        ensures
            r@ == self.spec_public_key(),
    {
        &self.public_key
    }

    /// Builds and signs the self-signed root: issuer and subject are both
    /// `root_subject`, the embedded public key is derived from the signing
    /// key, and the signature over the canonical to-be-signed encoding is
    /// accepted under that embedded key. On any failure the authority
    /// remains uninitialized; a failure after serial allocation still
    /// leaves the counter advanced, so no serial is ever reused.
    pub fn initialize_root(
        &mut self,
        root_subject: DistinguishedName,
        lifetime_days: u32,
        issued_at: u64,
        signing_key: Vec<u8>,
    ) -> (r: Result<Certificate, CaError>)
        requires
            old(self).wf(),
            !old(self).spec_initialized(),
            root_subject.wf(),
            old(self).spec_policy().skew_seconds <= issued_at,
            issued_at + lifetime_days * SECONDS_PER_DAY <= u64::MAX,
        ensures
            final(self).wf(),
            final(self).spec_policy() == old(self).spec_policy(),
            final(self).spec_allocator().spec_width() == old(self).spec_allocator().spec_width(),
            r is Ok ==> ({
                let c = r->Ok_0;
                &&& final(self).spec_initialized()
                &&& final(self).spec_root() is Some
                &&& final(self).spec_root_subject() == root_subject@
                &&& final(self).spec_public_key() == ed25519_public_of(signing_key@)
                &&& c.wf()
                &&& c.spec_tbs().issuer@ == root_subject@
                &&& c.spec_tbs().subject@ == root_subject@
                &&& c.spec_tbs().subject_public_key@ == ed25519_public_of(signing_key@)
                &&& ed25519_accepts(
                    c.spec_tbs().subject_public_key@,
                    spec_tbs_bytes(c.spec_tbs()),
                    c.spec_signature(),
                )
                &&& c.spec_tbs().version == CERTIFICATE_VERSION
                &&& c.spec_tbs().serial.value == old(self).spec_allocator().spec_next_value()
                &&& c.spec_tbs().validity == spec_compute_validity(
                    old(self).spec_policy(),
                    issued_at,
                    lifetime_days,
                )
                &&& c.spec_tbs().signature_algorithm == SignatureAlgorithm::Ed25519
                &&& final(self).spec_allocator().spec_next_value() == old(
                    self,
                ).spec_allocator().spec_next_value() + 1
            }),
            r is Err ==> !final(self).spec_initialized() && final(self).spec_root() is None,
            (r == Err::<Certificate, CaError>(CaError::SigningKeyMismatch)) <==> signing_key@.len()
                != ED25519_KEY_LEN,
            signing_key@.len() == ED25519_KEY_LEN ==> ((r == Err::<Certificate, CaError>(
                CaError::InvalidLifetime,
            )) <==> lifetime_days == 0),
            signing_key@.len() == ED25519_KEY_LEN && lifetime_days > 0 ==> ((r == Err::<
                Certificate,
                CaError,
            >(CaError::ExhaustedSerialSpace)) <==> !old(self).spec_allocator().spec_can_allocate()),
            r is Err ==> r == Err::<Certificate, CaError>(CaError::SigningKeyMismatch) || r
                == Err::<Certificate, CaError>(CaError::InvalidLifetime) || r == Err::<
                Certificate,
                CaError,
            >(CaError::ExhaustedSerialSpace) || r == Err::<Certificate, CaError>(
                CaError::SigningFailure,
            ),
    {
        if signing_key.len() != ED25519_KEY_LEN {
            return Err(CaError::SigningKeyMismatch);
        }
        let validity = match self.policy.compute(issued_at, lifetime_days) {
            Ok(v) => v,
            Err(e) => {
                return Err(e);
            },
        };
        let serial = match self.allocator.next() {
            Ok(s) => s,
            Err(e) => {
                return Err(e);
            },
        };
        let public_key = match derive_public_key(&signing_key) {
            Ok(pk) => pk,
            Err(_) => {
                return Err(CaError::SigningFailure);
            },
        };
        if public_key.len() < 1 || public_key.len() > MAX_PUBLIC_KEY_LEN {
            return Err(CaError::SigningFailure);
        }
        let mut extensions: Vec<Extension> = Vec::new();
        extensions.push(Extension::BasicConstraints { is_ca: true, path_len: None });
        let embedded_key = public_key.clone();
        proof {
            assert(embedded_key@ =~= public_key@);
        }
        let tbs = match assemble(
            root_subject.clone(),
            root_subject.clone(),
            serial,
            validity,
            embedded_key,
            extensions,
            CERTIFICATE_VERSION,
            SignatureAlgorithm::Ed25519,
        ) {
            Ok(t) => t,
            Err(_) => {
                return Err(CaError::SigningFailure);
            },
        };
        let cert = match sign_certificate(tbs, &signing_key, SignatureAlgorithm::Ed25519) {
            Ok(c) => c,
            Err(_) => {
                return Err(CaError::SigningFailure);
            },
        };
        let stored = cert.clone();
        self.signing_key = signing_key;
        self.public_key = public_key;
        self.root_subject = root_subject;
        self.root = Some(stored);
        self.initialized = true;
        Ok(cert)
    }

    /// Issues a certificate for a request: only valid once the root is
    /// initialized, failing with `NotInitialized` otherwise. The issuer is
    /// the authority's own subject name, the signature over the canonical
    /// to-be-signed encoding is accepted under the root's public key, and
    /// the root certificate is never mutated. A failure after serial
    /// allocation still leaves the counter advanced, so no serial is ever
    /// reused.
    pub fn issue_certificate(
        &mut self,
        request: CertificateRequest,
        lifetime_days: u32,
        issued_at: u64,
    ) -> (r: Result<Certificate, CaError>)
        requires
            old(self).wf(),
            request.subject.wf(),
            old(self).spec_policy().skew_seconds <= issued_at,
            issued_at + lifetime_days * SECONDS_PER_DAY <= u64::MAX,
        ensures
            final(self).wf(),
            final(self).spec_initialized() == old(self).spec_initialized(),
            final(self).spec_root() == old(self).spec_root(),
            final(self).spec_root_subject() == old(self).spec_root_subject(),
            final(self).spec_public_key() == old(self).spec_public_key(),
            final(self).spec_policy() == old(self).spec_policy(),
            final(self).spec_allocator().spec_width() == old(self).spec_allocator().spec_width(),
            (r == Err::<Certificate, CaError>(CaError::NotInitialized)) <==> !old(
                self,
            ).spec_initialized(),
            old(self).spec_initialized() ==> ((r == Err::<Certificate, CaError>(
                CaError::InvalidLifetime,
            )) <==> lifetime_days == 0),
            old(self).spec_initialized() && lifetime_days > 0 ==> ((r == Err::<
                Certificate,
                CaError,
            >(CaError::ExhaustedSerialSpace)) <==> !old(self).spec_allocator().spec_can_allocate()),
            old(self).spec_initialized() && lifetime_days > 0 && old(
                self,
            ).spec_allocator().spec_can_allocate() ==> ((r == Err::<Certificate, CaError>(
                CaError::MalformedInput,
            )) <==> !(1 <= request.public_key@.len() <= MAX_PUBLIC_KEY_LEN
                && request.extensions@.len() <= MAX_EXTENSIONS && (forall|i: int|
                0 <= i < request.extensions@.len()
                    ==> (#[trigger] request.extensions@[i]).spec_consistent()))),
            r is Ok ==> ({
                let c = r->Ok_0;
                &&& c.wf()
                &&& c.spec_tbs().issuer@ == old(self).spec_root_subject()
                &&& c.spec_tbs().subject@ == request.subject@
                &&& c.spec_tbs().subject_public_key@ == request.public_key@
                &&& c.spec_tbs().extensions@ == request.extensions@
                &&& ed25519_accepts(
                    old(self).spec_public_key(),
                    spec_tbs_bytes(c.spec_tbs()),
                    c.spec_signature(),
                )
                &&& c.spec_tbs().version == CERTIFICATE_VERSION
                &&& c.spec_tbs().serial.value == old(self).spec_allocator().spec_next_value()
                &&& c.spec_tbs().validity == spec_compute_validity(
                    old(self).spec_policy(),
                    issued_at,
                    lifetime_days,
                )
                &&& c.spec_tbs().signature_algorithm == SignatureAlgorithm::Ed25519
                &&& final(self).spec_allocator().spec_next_value() == old(
                    self,
                ).spec_allocator().spec_next_value() + 1
            }),
            r is Err ==> r == Err::<Certificate, CaError>(CaError::NotInitialized) || r == Err::<
                Certificate,
                CaError,
            >(CaError::InvalidLifetime) || r == Err::<Certificate, CaError>(
                CaError::ExhaustedSerialSpace,
            ) || r == Err::<Certificate, CaError>(CaError::MalformedInput) || r == Err::<
                Certificate,
                CaError,
            >(CaError::SigningFailure),
    {
        if !self.initialized {
            return Err(CaError::NotInitialized);
        }
        let validity = match self.policy.compute(issued_at, lifetime_days) {
            Ok(v) => v,
            Err(e) => {
                return Err(e);
            },
        };
        let serial = match self.allocator.next() {
            Ok(s) => s,
            Err(e) => {
                return Err(e);
            },
        };
        let issuer = self.root_subject.clone();
        let tbs = match assemble(
            issuer,
            request.subject,
            serial,
            validity,
            request.public_key,
            request.extensions,
            CERTIFICATE_VERSION,
            SignatureAlgorithm::Ed25519,
        ) {
            Ok(t) => t,
            Err(e) => {
                return Err(e);
            },
        };
        match sign_certificate(tbs, &self.signing_key, SignatureAlgorithm::Ed25519) {
            Ok(c) => Ok(c),
            Err(_) => Err(CaError::SigningFailure),
        }
    }
}

/// Certificates issued one after the other by the same authority — as
/// mutual exclusion orders any two concurrent issuance calls — carry
/// distinct serial numbers: each successful issuance returns the counter
/// value its call started from and leaves the counter advanced past it.
pub proof fn lemma_issued_serials_distinct(
    ca0: CaCore,
    ca1: CaCore,
    ca2: CaCore,
    c1: Certificate,
    c2: Certificate,
)
    requires
        c1.spec_tbs().serial.value == ca0.spec_allocator().spec_next_value(),
        ca1.spec_allocator().spec_next_value() == ca0.spec_allocator().spec_next_value() + 1,
        c2.spec_tbs().serial.value == ca1.spec_allocator().spec_next_value(),
        ca2.spec_allocator().spec_next_value() == ca1.spec_allocator().spec_next_value() + 1,
    ensures
        c1.spec_tbs().serial.value != c2.spec_tbs().serial.value,
{
}

} // verus!
