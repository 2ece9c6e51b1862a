//! The signed module envelope: a 32-byte ed25519 public key, a 64-byte
//! signature over the module bytes, then the module bytes. Only
//! envelopes under the compiled-in key are accepted.

use vstd::prelude::*;
use crate::error::KernelError;

verus! {

/// Length of the public-key field.
pub const PUBKEY_LEN: usize = 32;
/// Length of the signature field.
pub const SIGNATURE_LEN: usize = 64;
/// Length of the fixed header.
pub const HEADER_LEN: usize = 96;

/// The accepted public key (development key).
pub const ACCEPTED_PUBKEY: [u8; 32] = [
    0xf6, 0x09, 0xfc, 0x9a, 0xe4, 0x6f, 0xd9, 0x09, 0xbe, 0x0f, 0x6d, 0xf9, 0x78, 0x9d, 0xc4, 0x32,
    0xa1, 0xb8, 0x2c, 0x70, 0xf1, 0x56, 0x44, 0xbf, 0xf7, 0x94, 0x9d, 0xac, 0x12, 0x05, 0x70, 0x1a,
];

/// The accepted public key as a byte sequence.
pub open spec fn accepted_pubkey_spec() -> Seq<u8> {
    ACCEPTED_PUBKEY@
}

/// Whether `sig` is a valid ed25519 signature of `msg` under the
/// public key `pubkey` (a well-formed curve point), as
/// `ed25519_dalek` decides it.
pub uninterp spec fn ed25519_verifies(pubkey: Seq<u8>, sig: Seq<u8>, msg: Seq<u8>) -> bool;

/// Checks an ed25519 signature with `ed25519_dalek`: the key bytes are
/// decoded with `VerifyingKey::from_bytes` (a key that is not a valid
/// point fails), the signature with `Signature::from_bytes`, and the
/// result is that of `Verifier::verify`. Claimed: the outcome is a
/// function of the three byte strings alone, named `ed25519_verifies`.
#[verifier::external_body]
fn ed25519_verify(pubkey: &[u8; 32], sig: &[u8; 64], msg: &[u8]) -> (r: bool)
    ensures
        r == ed25519_verifies(pubkey@, sig@, msg@),
{
    let key = match ed25519_dalek::VerifyingKey::from_bytes(pubkey) {
        Ok(k) => k,
        Err(_) => return false,
    };
    let signature = ed25519_dalek::Signature::from_bytes(sig);
    ed25519_dalek::Verifier::verify(&key, msg, &signature).is_ok()
}

/// Does `envelope` pass the signature gate?
pub open spec fn envelope_ok(envelope: Seq<u8>) -> bool {
    &&& envelope.len() >= HEADER_LEN
    &&& envelope.subrange(0, 32) == accepted_pubkey_spec()
    &&& ed25519_verifies(
        envelope.subrange(0, 32),
        envelope.subrange(32, 96),
        envelope.subrange(96, envelope.len() as int),
    )
}

/// Decide the envelope given `sig_ok`, whether its signature holds:
/// the module bytes after the header when the envelope is long enough,
/// carries the accepted key and the signature holds; `BadWasm`
/// otherwise.
pub fn verify_outcome(envelope: &[u8], sig_ok: bool) -> (r: Result<&[u8], KernelError>)
    ensures
        (envelope@.len() >= HEADER_LEN && envelope@.subrange(0, 32) == accepted_pubkey_spec() && sig_ok)
            ==> (r matches Ok(p) && p@ == envelope@.subrange(96, envelope@.len() as int)),
        !(envelope@.len() >= HEADER_LEN && envelope@.subrange(0, 32) == accepted_pubkey_spec() && sig_ok)
            ==> r == Err::<&[u8], KernelError>(KernelError::BadWasm),
{
    if envelope.len() < HEADER_LEN {
        return Err(KernelError::BadWasm);
    }
    if !key_matches(envelope) || !sig_ok {
        return Err(KernelError::BadWasm);
    }
    Ok(vstd::slice::slice_subrange(envelope, HEADER_LEN, envelope.len()))
}

/// Do the first 32 bytes equal the accepted key?
fn key_matches(envelope: &[u8]) -> (r: bool)
    requires
        envelope@.len() >= HEADER_LEN,
    ensures
        r == (envelope@.subrange(0, 32) == accepted_pubkey_spec()),
{
    let k = ACCEPTED_PUBKEY;
    let mut i: usize = 0;
    while i < 32
        invariant
            i <= 32,
            envelope@.len() >= HEADER_LEN,
            k@ == accepted_pubkey_spec(),
            forall|j: int| 0 <= j < i ==> envelope@[j] == k@[j],
        decreases 32 - i,
    {
        if envelope[i] != k[i] {
            assert(envelope@.subrange(0, 32)[i as int] != accepted_pubkey_spec()[i as int]);
            return false;
        }
        i = i + 1;
    }
    assert(envelope@.subrange(0, 32) =~= accepted_pubkey_spec());
    true
}

/// Verify a signed envelope, returning the module bytes after the
/// 96-byte header. Every failure (too short, another key, a bad
/// signature or malformed key) is `BadWasm`.
pub fn verify(envelope: &[u8]) -> (r: Result<&[u8], KernelError>)
    ensures
        envelope_ok(envelope@) ==> (r matches Ok(p) && p@ == envelope@.subrange(96, envelope@.len() as int)),
        !envelope_ok(envelope@) ==> r == Err::<&[u8], KernelError>(KernelError::BadWasm),
{
    if envelope.len() < HEADER_LEN {
        return Err(KernelError::BadWasm);
    }
    if !key_matches(envelope) {
        return Err(KernelError::BadWasm);
    }
    let mut pk = [0u8; 32];
    let mut sig = [0u8; 64];
    let mut i: usize = 0;
    while i < 32
        invariant
            i <= 32,
            envelope@.len() >= HEADER_LEN,
            forall|j: int| 0 <= j < i ==> pk@[j] == envelope@[j],
        decreases 32 - i,
    {
        pk[i] = envelope[i];
        i = i + 1;
    }
    let mut j: usize = 0;
    while j < 64
        invariant
            j <= 64,
            envelope@.len() >= HEADER_LEN,
            forall|m: int| 0 <= m < j ==> sig@[m] == envelope@[32 + m],
        decreases 64 - j,
    {
        sig[j] = envelope[32 + j];
        j = j + 1;
    }
    assert(pk@ =~= envelope@.subrange(0, 32));
    assert(sig@ =~= envelope@.subrange(32, 96));
    let body = vstd::slice::slice_subrange(envelope, HEADER_LEN, envelope.len());
    let ok = ed25519_verify(&pk, &sig, body);
    verify_outcome(envelope, ok)
}

} // verus!
