//! Doughnuts: certificates by which an issuer delegates permissions to a
//! holder for a span of time, and the checks made on them.
use vstd::prelude::*;
use vstd::string::StringSliceAdditionalSpecFns;
use crate::codec::{
    encode_bytes32, encode_option_u64, encode_pair_list, encode_str, encode_u32, encode_u64,
    encoded_bytes, le_bytes, option_u64_encoding, pair_list_encoding, pair_list_fits,
};

verus! {

/// A public key of the chain, which names an account.
pub type PublicKey = [u8; 32];

/// A signature over a certificate.
pub type Signature = [u8; 64];

/// The body of a doughnut: who issued it to whom, when it is valid, and
/// the permissions it grants, as pairs of a domain and its settings.
#[derive(Clone, Debug, PartialEq, Eq, Default)]
pub struct Certificate {
    pub expires: u64,
    pub version: u32,
    pub holder: PublicKey,
    pub not_before: Option<u64>,
    pub permissions: Vec<(Vec<u8>, Vec<u8>)>,
    pub issuer: PublicKey,
}

/// A certificate with the issuer's signature over its encoding.
#[derive(Clone, Debug, PartialEq, Eq)]
pub struct Doughnut {
    pub certificate: Certificate,
    pub signature: Signature,
    pub compact: Vec<u8>,
}

/// Why a doughnut was refused.
#[derive(Clone, Copy, Debug, PartialEq, Eq)]
pub enum DoughnutError {
    /// The clock reads a time before the Unix epoch.
    ClockBeforeEpoch,
    /// The signature does not verify.
    InvalidSignature,
    /// The doughnut is expired or not valid yet.
    InvalidDoughnut,
    /// No permission is granted for the cennznet domain.
    NoPermission,
}

/// The message the chain reports for a refused doughnut.
pub open spec fn doughnut_error_message(e: DoughnutError) -> Seq<char> {
    match e {
        DoughnutError::ClockBeforeEpoch => "SystemTime before UNIX EPOCH!"@,
        DoughnutError::InvalidSignature => "invalid signature"@,
        DoughnutError::InvalidDoughnut => "invalid doughnut"@,
        DoughnutError::NoPermission => "no permission"@,
    }
}

impl DoughnutError {
    /// The message the chain reports for this refusal.
    pub fn message(&self) -> (m: &'static str)
        ensures
            m@ == doughnut_error_message(*self),
    {
        match self {
            DoughnutError::ClockBeforeEpoch => "SystemTime before UNIX EPOCH!",
            DoughnutError::InvalidSignature => "invalid signature",
            DoughnutError::InvalidDoughnut => "invalid doughnut",
            DoughnutError::NoPermission => "no permission",
        }
    }
}

/// At `now` (seconds since the Unix epoch) the certificate has not expired
/// and is no longer before its start.
pub open spec fn within_validity(c: Certificate, now: u64) -> bool {
    &&& now < c.expires
    &&& match c.not_before {
        Some(not_before) => not_before <= now,
        None => true,
    }
}

/// What checking `d` at `now` answers, where `signature_verifies` tells
/// whether its signature verifies over its certificate's encoding for the
/// issuer's key.
pub open spec fn validate_result(d: Doughnut, now: u64, signature_verifies: bool) -> Result<
    (),
    DoughnutError,
> {
    if !within_validity(d.certificate, now) {
        Err(DoughnutError::InvalidDoughnut)
    } else if !signature_verifies {
        Err(DoughnutError::InvalidSignature)
    } else {
        Ok(())
    }
}

/// The encoding of the domain name `cennznet`, against which permission
/// domains are compared.
pub open spec fn cennznet_domain() -> Seq<u8> {
    encoded_bytes("cennznet".spec_bytes())
}

/// The certificate grants a permission whose domain is `cennznet_domain()`.
pub open spec fn grants_cennznet(c: Certificate) -> bool {
    exists|i: int| 0 <= i < c.permissions.len() && #[trigger] c.permissions[i].0@ == cennznet_domain()
}

/// The UTF-8 bytes of the domain name, which is plain ASCII.
pub proof fn lemma_cennznet_bytes()
    ensures
        "cennznet".spec_bytes() == seq![99u8, 101u8, 110u8, 110u8, 122u8, 110u8, 101u8, 116u8],
{
    reveal_strlit("cennznet");
    let s = "cennznet";
    assert(vstd::string::is_ascii(s));
    vstd::string::is_ascii_spec_bytes(s);
    assert(s.spec_bytes() =~= seq![99u8, 101u8, 110u8, 110u8, 122u8, 110u8, 101u8, 116u8]);
}

/// The encoded domain is its length 8 in compact form (8 * 4 = 32),
/// then its bytes.
pub proof fn lemma_cennznet_domain()
    ensures
        cennznet_domain() == seq![32u8, 99u8, 101u8, 110u8, 110u8, 122u8, 110u8, 101u8, 116u8],
{
    lemma_cennznet_bytes();
    assert(crate::codec::le_bytes(32, 1) =~= seq![32u8]) by {
        reveal_with_fuel(crate::codec::le_bytes, 2);
    }
    assert(cennznet_domain() =~= seq![32u8, 99u8, 101u8, 110u8, 110u8, 122u8, 110u8, 101u8, 116u8]);
}

/// Whether two byte strings are equal.
fn bytes_equal(a: &Vec<u8>, b: &Vec<u8>) -> (r: bool)
    ensures
        r == (a@ == b@),
{
    if a.len() != b.len() {
        return false;
    }
    let mut i: usize = 0;
    while i < a.len()
        invariant
            a.len() == b.len(),
            i <= a.len(),
            forall|j: int| 0 <= j < i ==> a@[j] == b@[j],
        decreases a.len() - i,
    {
        if a[i] != b[i] {
            return false;
        }
        i = i + 1;
    }
    assert(a@ =~= b@);
    true
}

/// The bytes an issuer signs: the certificate's fields encoded in order,
/// `expires`, `version`, `holder`, `not_before`, `permissions`, `issuer`.
pub open spec fn certificate_encoding(c: Certificate) -> Seq<u8> {
    le_bytes(c.expires as nat, 8) + le_bytes(c.version as nat, 4) + c.holder@
        + option_u64_encoding(c.not_before) + pair_list_encoding(c.permissions@) + c.issuer@
}

/// The certificate's permissions are short enough to encode.
pub open spec fn encodable(c: Certificate) -> bool {
    pair_list_fits(c.permissions@)
}

/// The encoding of `certificate`, which its issuer signs.
pub fn signed_message(certificate: &Certificate) -> (r: Vec<u8>)
    requires
        encodable(*certificate),
    ensures
        r@ == certificate_encoding(*certificate),
{
    let mut r = encode_u64(certificate.expires);
    let mut part = encode_u32(certificate.version);
    r.append(&mut part);
    let mut part = encode_bytes32(&certificate.holder);
    r.append(&mut part);
    let mut part = encode_option_u64(&certificate.not_before);
    r.append(&mut part);
    let mut part = encode_pair_list(&certificate.permissions);
    r.append(&mut part);
    let mut part = encode_bytes32(&certificate.issuer);
    r.append(&mut part);
    r
}

/// Checks `doughnut` at `now`, seconds since the Unix epoch: it is refused
/// as invalid where it has expired or is not valid yet. Otherwise `verify`
/// is asked whether the doughnut's signature verifies over
/// `signed_message(&doughnut.certificate)` for the issuer's key
/// `doughnut.certificate.issuer`, and the doughnut is refused as badly
/// signed where it does not. The certificate is encoded only where the
/// doughnut is within its validity, so only there must it be encodable.
pub fn validate<F>(doughnut: Doughnut, now: u64, verify: F) -> (r: Result<(), DoughnutError>) where
    F: Fn(&Signature, &Vec<u8>, &PublicKey) -> bool,

    requires
        within_validity(doughnut.certificate, now) ==> encodable(doughnut.certificate),
        forall|sig: &Signature, message: &Vec<u8>, key: &PublicKey|
            call_requires(verify, (sig, message, key)),
    ensures
        !within_validity(doughnut.certificate, now) ==> r == Err::<(), DoughnutError>(
            DoughnutError::InvalidDoughnut,
        ),
        within_validity(doughnut.certificate, now) ==> exists|message: Vec<u8>, verified: bool|
            {
                &&& message@ == certificate_encoding(doughnut.certificate)
                &&& call_ensures(
                    verify,
                    (&doughnut.signature, &message, &doughnut.certificate.issuer),
                    verified,
                )
                &&& r == validate_result(doughnut, now, verified)
            },
{
    if doughnut.certificate.expires > now {
        let valid = match doughnut.certificate.not_before {
            Some(not_before) => not_before <= now,
            None => true,
        };
        if valid {
            let message = signed_message(&doughnut.certificate);
            let verified = verify(&doughnut.signature, &message, &doughnut.certificate.issuer);
            if verified {
                return Ok(());
            } else {
                return Err(DoughnutError::InvalidSignature);
            }
        }
    }
    Err(DoughnutError::InvalidDoughnut)
}

/// Succeeds where one of the certificate's permissions is for the domain
/// `cennznet`, its domain being compared with the encoding of that name.
pub fn validate_permission(doughnut: Doughnut) -> (r: Result<(), DoughnutError>)
    ensures
        r == (if grants_cennznet(doughnut.certificate) {
            Ok::<(), DoughnutError>(())
        } else {
            Err(DoughnutError::NoPermission)
        }),
{
    proof {
        lemma_cennznet_bytes();
    }
    let domain = encode_str("cennznet");
    let permissions = &doughnut.certificate.permissions;
    let mut i: usize = 0;
    while i < permissions.len()
        invariant
            i <= permissions.len(),
            permissions@ == doughnut.certificate.permissions@,
            domain@ == cennznet_domain(),
            forall|j: int| 0 <= j < i ==> #[trigger] permissions@[j].0@ != cennznet_domain(),
        decreases permissions.len() - i,
    {
        if bytes_equal(&permissions[i].0, &domain) {
            assert(doughnut.certificate.permissions[i as int].0@ == cennznet_domain());
            return Ok(());
        }
        i = i + 1;
    }
    Err(DoughnutError::NoPermission)
}

} // verus!
