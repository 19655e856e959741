//! The signer: Ed25519 signing and verification over the canonical
//! to-be-signed encoding. The cryptographic primitives themselves come
//! from the vetted cryptography collaborator; this module states what
//! they return and seals signed parts into certificates.

use vstd::prelude::*;
use crate::errors::CaError;
use crate::cert::{Certificate, SignatureAlgorithm, TbsCertificate, spec_tbs_bytes};

verus! {

/// Length of a raw Ed25519 private or public key, in bytes.
pub const ED25519_KEY_LEN: usize = 32;

/// The raw public key that belongs to a raw Ed25519 private key. It
/// depends on the private key bytes alone; only the cryptography
/// collaborator computes it.
pub uninterp spec fn ed25519_public_of(private_key: Seq<u8>) -> Seq<u8>;

/// Whether Ed25519 verification accepts a signature over a message under
/// a raw public key: a deterministic function of the three byte strings.
pub uninterp spec fn ed25519_accepts(
    public_key: Seq<u8>,
    message: Seq<u8>,
    signature: Seq<u8>,
) -> bool;

/// Relies on openssl's `PKey::private_key_from_raw_bytes` and
/// `PKey::raw_public_key` with `Id::ED25519`: the returned public key is
/// derived from the 32 private key bytes alone.
#[verifier::external_body]
fn ed25519_derive_public(private_key: &Vec<u8>) -> (r: Option<Vec<u8>>)
    requires
        private_key@.len() == ED25519_KEY_LEN,
    ensures
        r is Some ==> (r->0)@ == ed25519_public_of(private_key@),
{
    let key = match openssl::pkey::PKey::private_key_from_raw_bytes(
        private_key,
        openssl::pkey::Id::ED25519,
    ) {
        Ok(k) => k,
        Err(_) => return None,
    };
    key.raw_public_key().ok()
}

/// Relies on openssl's `Signer::new_without_digest` and
/// `Signer::sign_oneshot_to_vec` with an Ed25519 key: a signature it
/// produces over a message is accepted by openssl's verifier under the
/// public key that belongs to the signing key.
#[verifier::external_body]
fn ed25519_sign(private_key: &Vec<u8>, message: &Vec<u8>) -> (r: Option<Vec<u8>>)
    requires
        private_key@.len() == ED25519_KEY_LEN,
    ensures
        r is Some ==> ed25519_accepts(
            ed25519_public_of(private_key@),
            message@,
            (r->0)@,
        ),
{
    let key = match openssl::pkey::PKey::private_key_from_raw_bytes(
        private_key,
        openssl::pkey::Id::ED25519,
    ) {
        Ok(k) => k,
        Err(_) => return None,
    };
    let mut signer = match openssl::sign::Signer::new_without_digest(&key) {
        Ok(s) => s,
        Err(_) => return None,
    };
    signer.sign_oneshot_to_vec(message).ok()
}

/// Relies on openssl's `Verifier::new_without_digest` and
/// `Verifier::verify_oneshot` with an Ed25519 public key: acceptance is a
/// function of the public key, message and signature bytes. An internal
/// error of the collaborator counts as rejection.
#[verifier::external_body]
fn ed25519_verify(public_key: &Vec<u8>, message: &Vec<u8>, signature: &Vec<u8>) -> (r: bool)
    requires
        public_key@.len() == ED25519_KEY_LEN,
    ensures
        r == ed25519_accepts(public_key@, message@, signature@),
{
    let key = match openssl::pkey::PKey::public_key_from_raw_bytes(
        public_key,
        openssl::pkey::Id::ED25519,
    ) {
        Ok(k) => k,
        Err(_) => return false,
    };
    let mut verifier = match openssl::sign::Verifier::new_without_digest(&key) {
        Ok(v) => v,
        Err(_) => return false,
    };
    verifier.verify_oneshot(signature, message).unwrap_or(false)
}

/// Derives the raw public key of a raw Ed25519 private key. Fails with
/// `SigningKeyMismatch` exactly when the key is not 32 bytes, and with
/// `SigningFailure` when the collaborator fails.
pub fn derive_public_key(private_key: &Vec<u8>) -> (r: Result<Vec<u8>, CaError>)
    ensures
        r is Ok ==> private_key@.len() == ED25519_KEY_LEN && (r->Ok_0)@ == ed25519_public_of(
            private_key@,
        ),
        (r == Err::<Vec<u8>, CaError>(CaError::SigningKeyMismatch)) <==> private_key@.len()
            != ED25519_KEY_LEN,
        r is Err ==> r == Err::<Vec<u8>, CaError>(CaError::SigningKeyMismatch) || r == Err::<
            Vec<u8>,
            CaError,
        >(CaError::SigningFailure),
{
    if private_key.len() != ED25519_KEY_LEN {
        return Err(CaError::SigningKeyMismatch);
    }
    match ed25519_derive_public(private_key) {
        Some(pk) => Ok(pk),
        None => Err(CaError::SigningFailure),
    }
}

/// Signs the canonical encoding of a to-be-signed structure with a raw
/// Ed25519 private key and seals the result. Fails with
/// `SigningKeyMismatch` exactly when the key cannot be an Ed25519 key
/// (it is not 32 bytes), and with `SigningFailure` when the cryptography
/// collaborator fails; on success the embedded signature is accepted
/// under the public key that belongs to the signing key.
pub fn sign_certificate(
    tbs: TbsCertificate,
    signing_key: &Vec<u8>,
    algorithm: SignatureAlgorithm,
) -> (r: Result<Certificate, CaError>)
    requires
        tbs.wf(),
        tbs.signature_algorithm == algorithm,
    ensures
        r is Ok ==> ({
            let c = r->Ok_0;
            &&& *c.spec_tbs() == tbs
            &&& c.wf()
            &&& ed25519_accepts(
                ed25519_public_of(signing_key@),
                spec_tbs_bytes(&tbs),
                c.spec_signature(),
            )
        }),
        (r == Err::<Certificate, CaError>(CaError::SigningKeyMismatch)) <==> signing_key@.len()
            != ED25519_KEY_LEN,
        r is Err ==> r == Err::<Certificate, CaError>(CaError::SigningKeyMismatch) || r == Err::<
            Certificate,
            CaError,
        >(CaError::SigningFailure),
{
    if signing_key.len() != ED25519_KEY_LEN {
        return Err(CaError::SigningKeyMismatch);
    }
    let message = tbs.to_bytes();
    match ed25519_sign(signing_key, &message) {
        Some(signature) => {
            if signature.len() < 1 || signature.len() > 65535 {
                return Err(CaError::SigningFailure);
            }
            Ok(Certificate::from_parts(tbs, signature))
        },
        None => Err(CaError::SigningFailure),
    }
}

/// Whether a certificate's signature is accepted under a raw Ed25519
/// public key, over the certificate's canonical to-be-signed encoding.
/// A key that is not 32 bytes accepts nothing.
pub fn verify_certificate(cert: &Certificate, public_key: &Vec<u8>) -> (r: bool)
    requires
        cert.wf(),
    ensures
        public_key@.len() == ED25519_KEY_LEN ==> r == ed25519_accepts(
            public_key@,
            spec_tbs_bytes(cert.spec_tbs()),
            cert.spec_signature(),
        ),
        public_key@.len() != ED25519_KEY_LEN ==> r == false,
{
    if public_key.len() != ED25519_KEY_LEN {
        return false;
    }
    let message = cert.tbs().to_bytes();
    ed25519_verify(public_key, &message, cert.signature())
}

} // verus!
