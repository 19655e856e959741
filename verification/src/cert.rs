//! Certificates: the to-be-signed structure a builder assembles from
//! validated parts, its canonical byte encoding, and the sealed,
//! immutable certificate a signer produces from it.

use vstd::prelude::*;
use crate::errors::CaError;
use crate::name::{DistinguishedName, name_wf, spec_encode_name};
use crate::serial::{SerialNumber, spec_serial_bytes};
use crate::validity::ValidityPeriod;

verus! {

/// Longest subject public key the builder accepts, in bytes.
pub const MAX_PUBLIC_KEY_LEN: usize = 65535;

/// Most extensions one certificate may carry.
pub const MAX_EXTENSIONS: usize = 255;

/// The signature algorithms the core can name in a certificate.
#[derive(Clone, Copy, PartialEq, Eq, Structural, Debug)]
pub enum SignatureAlgorithm {
    Ed25519,
}

impl SignatureAlgorithm {
    /// The byte tag of this algorithm in the canonical encoding.
    pub open spec fn spec_tag(self) -> u8 {
        match self {
            SignatureAlgorithm::Ed25519 => 1,
        }
    }

    /// The byte tag of this algorithm in the canonical encoding.
    pub fn tag(self) -> (r: u8)
        ensures
            r == self.spec_tag(),
    {
        match self {
            SignatureAlgorithm::Ed25519 => 1,
        }
    }
}

/// A requested certificate extension.
#[derive(Clone, Copy, Debug)]
pub enum Extension {
    /// Whether the subject is itself an authority, with an optional bound
    /// on the chain that may hang below it.
    BasicConstraints { is_ca: bool, path_len: Option<u32> },
    /// What the subject's key is meant to be used for.
    KeyUsage { digital_signature: bool, key_cert_sign: bool, crl_sign: bool },
}

impl Extension {
    /// An extension is structurally consistent unless it marks a
    /// non-authority subject and still bounds the chain below it.
    pub open spec fn spec_consistent(self) -> bool {
        match self {
            Extension::BasicConstraints { is_ca, path_len } => is_ca || path_len is None,
            Extension::KeyUsage { .. } => true,
        }
    }

    /// An extension is structurally consistent unless it marks a
    /// non-authority subject and still bounds the chain below it.
    pub fn consistent(&self) -> (r: bool)
        ensures
            r == self.spec_consistent(),
    {
        match self {
            Extension::BasicConstraints { is_ca, path_len } => *is_ca || path_len.is_none(),
            Extension::KeyUsage { .. } => true,
        }
    }
}

/// Four big-endian bytes of a 32-bit value.
pub open spec fn spec_u32_be(x: u32) -> Seq<u8> {
    seq![
        (x / 0x1000000 % 256) as u8,
        (x / 0x10000 % 256) as u8,
        (x / 0x100 % 256) as u8,
        (x % 256) as u8,
    ]
}

/// Eight big-endian bytes of a 64-bit value.
pub open spec fn spec_u64_be(x: u64) -> Seq<u8> {
    seq![
        (x / 0x100000000000000 % 256) as u8,
        (x / 0x1000000000000 % 256) as u8,
        (x / 0x10000000000 % 256) as u8,
        (x / 0x100000000 % 256) as u8,
        (x / 0x1000000 % 256) as u8,
        (x / 0x10000 % 256) as u8,
        (x / 0x100 % 256) as u8,
        (x % 256) as u8,
    ]
}

/// Two big-endian bytes of a 16-bit value.
pub open spec fn spec_u16_be(x: u16) -> Seq<u8> {
    seq![(x / 0x100) as u8, (x % 256) as u8]
}

/// Appends the eight big-endian bytes of `x` to `out`.
fn push_u64_be(out: &mut Vec<u8>, x: u64)
    ensures
        final(out)@ == old(out)@ + spec_u64_be(x),
{
    let ghost pre = out@;
    out.push((x / 0x100000000000000 % 256) as u8);
    out.push((x / 0x1000000000000 % 256) as u8);
    out.push((x / 0x10000000000 % 256) as u8);
    out.push((x / 0x100000000 % 256) as u8);
    out.push((x / 0x1000000 % 256) as u8);
    out.push((x / 0x10000 % 256) as u8);
    out.push((x / 0x100 % 256) as u8);
    out.push((x % 256) as u8);
    proof {
        assert(out@ =~= pre + spec_u64_be(x));
    }
}

/// The canonical encoding of one extension.
pub open spec fn spec_encode_extension(e: Extension) -> Seq<u8> {
    match e {
        Extension::BasicConstraints { is_ca, path_len } => {
            match path_len {
                Some(n) => seq![1u8, if is_ca { 1u8 } else { 0u8 }, 1u8] + spec_u32_be(n),
                None => seq![1u8, if is_ca { 1u8 } else { 0u8 }, 0u8] + spec_u32_be(0),
            }
        },
        Extension::KeyUsage { digital_signature, key_cert_sign, crl_sign } => {
            seq![
                2u8,
                if digital_signature { 1u8 } else { 0u8 },
                if key_cert_sign { 1u8 } else { 0u8 },
                if crl_sign { 1u8 } else { 0u8 },
            ]
        },
    }
}

/// The canonical encoding of a sequence of extensions, in order.
pub open spec fn spec_encode_extension_list(s: Seq<Extension>) -> Seq<u8>
    decreases s.len(),
{
    if s.len() == 0 {
        Seq::empty()
    } else {
        spec_encode_extension(s[0]) + spec_encode_extension_list(s.drop_first())
    }
}

/// Appending an extension extends the canonical encoding at its end.
proof fn lemma_encode_extension_push(s: Seq<Extension>, e: Extension)
    ensures
        spec_encode_extension_list(s.push(e)) == spec_encode_extension_list(s)
            + spec_encode_extension(e),
    decreases s.len(),
{
    if s.len() == 0 {
        let emp = Seq::<Extension>::empty();
        assert(s.push(e)[0] == e);
        assert(s.push(e).drop_first() =~= emp);
        assert(spec_encode_extension_list(emp) == Seq::<u8>::empty());
        assert(spec_encode_extension_list(s.push(e)) =~= spec_encode_extension_list(s)
            + spec_encode_extension(e));
    } else {
        assert(s.push(e)[0] == s[0]);
        assert(s.push(e).drop_first() =~= s.drop_first().push(e));
        lemma_encode_extension_push(s.drop_first(), e);
        assert(spec_encode_extension_list(s.push(e)) =~= spec_encode_extension_list(s)
            + spec_encode_extension(e));
    }
}

/// Appends the canonical encoding of one extension to `out`.
fn push_extension(out: &mut Vec<u8>, e: &Extension)
    ensures
        final(out)@ == old(out)@ + spec_encode_extension(*e),
{
    let ghost pre = out@;
    match e {
        Extension::BasicConstraints { is_ca, path_len } => {
            out.push(1);
            out.push(if *is_ca {
                1
            } else {
                0
            });
            match path_len {
                Some(p) => {
                    out.push(1);
                    out.push((*p / 0x1000000 % 256) as u8);
                    out.push((*p / 0x10000 % 256) as u8);
                    out.push((*p / 0x100 % 256) as u8);
                    out.push((*p % 256) as u8);
                },
                None => {
                    out.push(0);
                    out.push(0);
                    out.push(0);
                    out.push(0);
                    out.push(0);
                },
            }
        },
        Extension::KeyUsage { digital_signature, key_cert_sign, crl_sign } => {
            out.push(2);
            out.push(if *digital_signature {
                1
            } else {
                0
            });
            out.push(if *key_cert_sign {
                1
            } else {
                0
            });
            out.push(if *crl_sign {
                1
            } else {
                0
            });
        },
    }
    proof {
        assert(out@ =~= pre + spec_encode_extension(*e));
    }
}

/// The parts of a certificate that are covered by its signature.
pub struct TbsCertificate {
    pub version: u8,
    pub serial: SerialNumber,
    pub issuer: DistinguishedName,
    pub subject: DistinguishedName,
    pub validity: ValidityPeriod,
    pub subject_public_key: Vec<u8>,
    pub extensions: Vec<Extension>,
    pub signature_algorithm: SignatureAlgorithm,
}

/// The canonical to-be-signed byte sequence: version, serial, issuer,
/// validity, subject, subject public key, extensions, then the signature
/// algorithm, each in a fixed, deterministic layout.
pub open spec fn spec_tbs_bytes(t: &TbsCertificate) -> Seq<u8> {
    seq![t.version] + seq![spec_serial_bytes(t.serial.value as nat).len() as u8]
        + spec_serial_bytes(t.serial.value as nat) + spec_encode_name(t.issuer@) + spec_u64_be(
        t.validity.not_before,
    ) + spec_u64_be(t.validity.not_after) + spec_encode_name(t.subject@) + spec_u16_be(
        t.subject_public_key@.len() as u16,
    ) + t.subject_public_key@ + seq![t.extensions@.len() as u8] + spec_encode_extension_list(
        t.extensions@,
    ) + seq![t.signature_algorithm.spec_tag()]
}

impl TbsCertificate {
    /// The builder's structural rules: well-formed names and window, a
    /// present and bounded public key, consistent and bounded extensions.
    pub open spec fn wf(&self) -> bool {
        &&& name_wf(self.issuer@)
        &&& name_wf(self.subject@)
        &&& self.validity.wf()
        &&& 1 <= self.subject_public_key@.len() <= MAX_PUBLIC_KEY_LEN
        &&& self.extensions@.len() <= MAX_EXTENSIONS
        &&& forall|i: int|
            0 <= i < self.extensions@.len() ==> (#[trigger] self.extensions@[i]).spec_consistent()
    }

    /// The canonical to-be-signed byte sequence of this structure.
    pub fn to_bytes(&self) -> (r: Vec<u8>)
        requires
            self.wf(),
        ensures
            r@ == spec_tbs_bytes(self),
    {
        let mut out: Vec<u8> = Vec::new();
        out.push(self.version);
        let mut serial_bytes = self.serial.to_bytes();
        out.push(serial_bytes.len() as u8);
        out.append(&mut serial_bytes);
        let mut issuer_bytes = self.issuer.encode();
        out.append(&mut issuer_bytes);
        push_u64_be(&mut out, self.validity.not_before);
        push_u64_be(&mut out, self.validity.not_after);
        let mut subject_bytes = self.subject.encode();
        out.append(&mut subject_bytes);
        let pk_len = self.subject_public_key.len() as u16;
        out.push((pk_len / 0x100) as u8);
        out.push((pk_len % 256) as u8);
        let mut pk = vstd::slice::slice_to_vec(self.subject_public_key.as_slice());
        out.append(&mut pk);
        out.push(self.extensions.len() as u8);
        let ghost mid = out@;
        let n = self.extensions.len();
        for i in 0..n
            invariant
                n == self.extensions@.len(),
                out@ == mid + spec_encode_extension_list(self.extensions@.take(i as int)),
        {
            push_extension(&mut out, &self.extensions[i]);
            proof {
                lemma_encode_extension_push(
                    self.extensions@.take(i as int),
                    self.extensions@[i as int],
                );
                assert(self.extensions@.take(i + 1) =~= self.extensions@.take(i as int).push(
                    self.extensions@[i as int],
                ));
                assert(out@ =~= mid + spec_encode_extension_list(self.extensions@.take(i + 1)));
            }
        }
        out.push(self.signature_algorithm.tag());
        proof {
            assert(self.extensions@.take(n as int) =~= self.extensions@);
            assert(out@ =~= spec_tbs_bytes(self));
        }
        out
    }
}

/// Whether two to-be-signed structures agree in every field's view.
pub open spec fn tbs_view_eq(a: &TbsCertificate, b: &TbsCertificate) -> bool {
    &&& a.version == b.version
    &&& a.serial == b.serial
    &&& a.issuer@ == b.issuer@
    &&& a.subject@ == b.subject@
    &&& a.validity == b.validity
    &&& a.subject_public_key@ == b.subject_public_key@
    &&& a.extensions@ == b.extensions@
    &&& a.signature_algorithm == b.signature_algorithm
}

/// Structures that agree in every view have the same canonical encoding
/// and the same well-formedness.
pub proof fn lemma_tbs_view_eq(a: &TbsCertificate, b: &TbsCertificate)
    requires
        tbs_view_eq(a, b),
    ensures
        spec_tbs_bytes(a) == spec_tbs_bytes(b),
        a.wf() == b.wf(),
{
}

impl Clone for TbsCertificate {
    /// An equal copy of the signed parts, field view by field view.
    fn clone(&self) -> (r: Self)
        ensures
            tbs_view_eq(&r, self),
            spec_tbs_bytes(&r) == spec_tbs_bytes(self),
            r.wf() == self.wf(),
    {
        let r = TbsCertificate {
            version: self.version,
            serial: self.serial,
            issuer: self.issuer.clone(),
            subject: self.subject.clone(),
            validity: self.validity,
            subject_public_key: vstd::slice::slice_to_vec(self.subject_public_key.as_slice()),
            extensions: vstd::slice::slice_to_vec(self.extensions.as_slice()),
            signature_algorithm: self.signature_algorithm,
        };
        proof {
            lemma_tbs_view_eq(&r, self);
        }
        r
    }
}

/// Assembles validated parts into a to-be-signed certificate structure.
/// Fails with `MalformedInput` exactly when the public key is absent or
/// over-long, there are too many extensions, or an extension is
/// structurally inconsistent. The inputs are not modified; the output is
/// a new value.
pub fn assemble(
    issuer: DistinguishedName,
    subject: DistinguishedName,
    serial: SerialNumber,
    validity: ValidityPeriod,
    subject_public_key: Vec<u8>,
    extensions: Vec<Extension>,
    version: u8,
    signature_algorithm: SignatureAlgorithm,
) -> (r: Result<TbsCertificate, CaError>)
    requires
        issuer.wf(),
        subject.wf(),
        validity.wf(),
    ensures
        r is Ok <==> 1 <= subject_public_key@.len() <= MAX_PUBLIC_KEY_LEN && extensions@.len()
            <= MAX_EXTENSIONS && (forall|i: int|
            0 <= i < extensions@.len() ==> (#[trigger] extensions@[i]).spec_consistent()),
        r is Ok ==> ({
            let t = r->Ok_0;
            &&& t.version == version
            &&& t.serial == serial
            &&& t.issuer@ == issuer@
            &&& t.subject@ == subject@
            &&& t.validity == validity
            &&& t.subject_public_key@ == subject_public_key@
            &&& t.extensions@ == extensions@
            &&& t.signature_algorithm == signature_algorithm
            &&& t.wf()
        }),
        r is Err ==> r == Err::<TbsCertificate, CaError>(CaError::MalformedInput),
{
    if subject_public_key.len() < 1 || subject_public_key.len() > MAX_PUBLIC_KEY_LEN {
        return Err(CaError::MalformedInput);
    }
    if extensions.len() > MAX_EXTENSIONS {
        return Err(CaError::MalformedInput);
    }
    for i in 0..extensions.len()
        invariant
            forall|j: int| 0 <= j < i ==> (#[trigger] extensions@[j]).spec_consistent(),
    {
        if !extensions[i].consistent() {
            return Err(CaError::MalformedInput);
        }
    }
    Ok(
        TbsCertificate {
            version,
            serial,
            issuer,
            subject,
            validity,
            subject_public_key,
            extensions,
            signature_algorithm,
        },
    )
}

/// A certificate: the signed parts and the signature over their canonical
/// encoding. Immutable once built; nothing mutates it after signing.
pub struct Certificate {
    tbs: TbsCertificate,
    signature: Vec<u8>,
}

impl Certificate {
    /// The signed parts of this certificate.
    pub closed spec fn spec_tbs(&self) -> &TbsCertificate {
        &self.tbs
    }

    /// The signature bytes of this certificate.
    pub closed spec fn spec_signature(&self) -> Seq<u8> {
        self.signature@
    }

    /// The structural rules a sealed certificate satisfies.
    pub open spec fn wf(&self) -> bool {
        &&& self.spec_tbs().wf()
        &&& 1 <= self.spec_signature().len() <= 65535
    }

    /// Seals signed parts and their signature into a certificate.
    pub(crate) fn from_parts(tbs: TbsCertificate, signature: Vec<u8>) -> (r: Certificate)
        requires
            tbs.wf(),
            1 <= signature@.len() <= 65535,
        ensures
            *r.spec_tbs() == tbs,
            r.spec_signature() == signature@,
            r.wf(),
    {
        Certificate { tbs, signature }
    }

    /// The signed parts of this certificate.
    pub fn tbs(&self) -> (r: &TbsCertificate)
        ensures
            r == self.spec_tbs(),
    {
        &self.tbs
    }

    /// The signature bytes of this certificate.
    pub fn signature(&self) -> (r: &Vec<u8>)
        ensures
            r@ == self.spec_signature(),
    {
        &self.signature
    }

    /// The canonical encoding of the whole certificate: the to-be-signed
    /// bytes, then the signature, length-prefixed.
    pub fn to_bytes(&self) -> (r: Vec<u8>)
        requires
            self.wf(),
        ensures
            r@ == spec_certificate_bytes(self),
    {
        let mut out = self.tbs.to_bytes();
        let sig_len = self.signature.len() as u16;
        out.push((sig_len / 0x100) as u8);
        out.push((sig_len % 256) as u8);
        let mut sig = vstd::slice::slice_to_vec(self.signature.as_slice());
        out.append(&mut sig);
        proof {
            assert(out@ =~= spec_certificate_bytes(self));
        }
        out
    }
}

impl Clone for Certificate {
    /// An equal copy: the same signed parts and the same signature bytes.
    fn clone(&self) -> (r: Self)
        ensures
            tbs_view_eq(r.spec_tbs(), self.spec_tbs()),
            spec_tbs_bytes(r.spec_tbs()) == spec_tbs_bytes(self.spec_tbs()),
            r.spec_signature() == self.spec_signature(),
            r.wf() == self.wf(),
    {
        let r = Certificate {
            tbs: self.tbs.clone(),
            signature: vstd::slice::slice_to_vec(self.signature.as_slice()),
        };
        proof {
            lemma_tbs_view_eq(r.spec_tbs(), self.spec_tbs());
        }
        r
    }
}

/// The canonical encoding of a whole certificate.
pub open spec fn spec_certificate_bytes(c: &Certificate) -> Seq<u8> {
    spec_tbs_bytes(c.spec_tbs()) + spec_u16_be(c.spec_signature().len() as u16)
        + c.spec_signature()
}

/// A request for a certificate: the subject's name, its public key, and
/// the extensions it asks for.
pub struct CertificateRequest {
    pub subject: DistinguishedName,
    pub public_key: Vec<u8>,
    pub extensions: Vec<Extension>,
}

} // verus!
