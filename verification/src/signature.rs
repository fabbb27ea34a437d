//! Ed25519 signature checking, by `ed25519-dalek`.
use vstd::prelude::*;
use ed25519_dalek::{PublicKey, Signature, SignatureError};

verus! {

#[verifier::external_type_specification]
#[verifier::external_body]
pub struct ExPublicKey(ed25519_dalek::PublicKey);

#[verifier::external_type_specification]
#[verifier::external_body]
pub struct ExSignature(ed25519_dalek::Signature);

#[verifier::external_type_specification]
#[verifier::external_body]
pub struct ExSignatureError(ed25519_dalek::SignatureError);

/// Whether 32 bytes are the compressed form of a point of the curve, as
/// `PublicKey::from_bytes` decides by decompressing them.
pub uninterp spec fn ed25519_point_decodes(bytes: Seq<u8>) -> bool;

/// Whether `signature` is a valid signature of `message` under the public
/// key encoded as `key`, as `PublicKey::verify` decides.
pub uninterp spec fn ed25519_verifies(key: Seq<u8>, message: Seq<u8>, signature: Seq<u8>) -> bool;

/// `PublicKey::from_bytes`: accepts exactly 32 bytes that decompress to a
/// curve point.
#[verifier::external_body]
fn public_key_from_bytes(bytes: &[u8]) -> (r: Result<PublicKey, SignatureError>)
    ensures
        r is Ok <==> (bytes@.len() == 32 && ed25519_point_decodes(bytes@)),
{
    PublicKey::from_bytes(bytes)
}

/// `Signature::try_from(&[u8])`: accepts exactly 64 bytes whose last byte has
/// its three highest bits clear.
#[verifier::external_body]
fn signature_from_bytes(bytes: &[u8]) -> (r: Result<Signature, SignatureError>)
    ensures
        r is Ok <==> (bytes@.len() == 64 && bytes@[63] & 0xe0u8 == 0),
{
    Signature::try_from(bytes)
}

/// A public key together with the bytes it was decoded from.
pub struct Ed25519Key {
    key: PublicKey,
    bytes: Vec<u8>,
}

impl View for Ed25519Key {
    type V = Seq<u8>;

    closed spec fn view(&self) -> Seq<u8> {
        self.bytes@
    }
}

/// A signature together with the bytes it was read from.
pub struct Ed25519Signature {
    signature: Signature,
    bytes: Vec<u8>,
}

impl View for Ed25519Signature {
    type V = Seq<u8>;

    closed spec fn view(&self) -> Seq<u8> {
        self.bytes@
    }
}

/// The public key encoded by `bytes`, if they encode one.
pub fn parse_public_key(bytes: &[u8]) -> (r: Result<Ed25519Key, SignatureError>)
    ensures
        r is Ok <==> (bytes@.len() == 32 && ed25519_point_decodes(bytes@)),
        r matches Ok(k) ==> k@ == bytes@,
{
    let key = public_key_from_bytes(bytes)?;
    Ok(Ed25519Key { key, bytes: vstd::slice::slice_to_vec(bytes) })
}

/// The signature held by `bytes`, if they hold one.
pub fn parse_signature(bytes: &[u8]) -> (r: Result<Ed25519Signature, SignatureError>)
    ensures
        r is Ok <==> (bytes@.len() == 64 && bytes@[63] & 0xe0u8 == 0),
        r matches Ok(s) ==> s@ == bytes@,
{
    let signature = signature_from_bytes(bytes)?;
    Ok(Ed25519Signature { signature, bytes: vstd::slice::slice_to_vec(bytes) })
}

/// `PublicKey::verify` (through the `Verifier` trait): whether the signature
/// of the message is valid under the key. The key and the signature are
/// those decoded from their bytes, so the answer depends on those bytes and
/// the message alone.
#[verifier::external_body]
pub(crate) fn verify_signature(key: &Ed25519Key, message: &[u8], signature: &Ed25519Signature) -> (ok: bool)
    ensures
        ok == ed25519_verifies(key@, message@, signature@),
{
    ed25519_dalek::Verifier::verify(&key.key, message, &signature.signature).is_ok()
}

} // verus!
