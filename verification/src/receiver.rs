//! The interaction endpoint: Discord's signature check on the requests it
//! sends, and the answer to a check request.
use vstd::prelude::*;
use vstd::utf8::encode_utf8;
use crate::hexcode::{HexError, hex_decode, hex_bytes, is_hex_digit};
use crate::signature::{Ed25519Key, Ed25519Signature, parse_public_key, parse_signature, verify_signature,
    ed25519_point_decodes, ed25519_verifies};
use crate::text::{concat2, concat3};

verus! {

/// Why a request could not be checked.
#[derive(Debug, Clone, Copy, PartialEq, Eq, Structural)]
pub enum ReceiverError {
    /// The public key is not hexadecimal text.
    PublicKeyHex(HexError),
    /// The public key bytes do not encode a key.
    PublicKey,
    /// The signature is not hexadecimal text.
    SignatureHex(HexError),
    /// The signature bytes do not hold a signature.
    Signature,
}

/// Whether text is hexadecimal digits, an even number of them.
pub open spec fn is_hex_text(s: Seq<char>) -> bool {
    let d = encode_utf8(s);
    &&& d.len() % 2 == 0
    &&& forall|i: int| 0 <= i < d.len() ==> is_hex_digit(#[trigger] d[i])
}

/// The bytes that hexadecimal text stands for.
pub open spec fn hex_text_bytes(s: Seq<char>) -> Seq<u8> {
    hex_bytes(encode_utf8(s))
}

/// The application's public key, from its hexadecimal text.
pub fn decode_public_key(hex_text: &str) -> (r: Result<Ed25519Key, ReceiverError>)
    ensures
        !is_hex_text(hex_text@) ==> r matches Err(ReceiverError::PublicKeyHex(_)),
        is_hex_text(hex_text@) ==> match r {
            Ok(k) => k@ == hex_text_bytes(hex_text@),
            Err(e) => e == ReceiverError::PublicKey
                && !(hex_text_bytes(hex_text@).len() == 32 && ed25519_point_decodes(hex_text_bytes(hex_text@))),
        },
        r is Ok <==> is_hex_text(hex_text@) && hex_text_bytes(hex_text@).len() == 32
            && ed25519_point_decodes(hex_text_bytes(hex_text@)),
{
    let bytes = match hex_decode(hex_text.as_bytes()) {
        Ok(b) => b,
        Err(e) => return Err(ReceiverError::PublicKeyHex(e)),
    };
    match parse_public_key(bytes.as_slice()) {
        Ok(k) => Ok(k),
        Err(_) => Err(ReceiverError::PublicKey),
    }
}

/// A request's signature, from its hexadecimal text.
pub fn decode_signature(hex_text: &str) -> (r: Result<Ed25519Signature, ReceiverError>)
    ensures
        !is_hex_text(hex_text@) ==> r matches Err(ReceiverError::SignatureHex(_)),
        is_hex_text(hex_text@) ==> match r {
            Ok(s) => s@ == hex_text_bytes(hex_text@),
            Err(e) => e == ReceiverError::Signature,
        },
        r is Ok <==> is_hex_text(hex_text@) && hex_text_bytes(hex_text@).len() == 64
            && hex_text_bytes(hex_text@)[63] & 0xe0u8 == 0,
{
    let bytes = match hex_decode(hex_text.as_bytes()) {
        Ok(b) => b,
        Err(e) => return Err(ReceiverError::SignatureHex(e)),
    };
    match parse_signature(bytes.as_slice()) {
        Ok(s) => Ok(s),
        Err(_) => Err(ReceiverError::Signature),
    }
}

/// What Discord signs: the timestamp followed by the body.
pub fn signed_message(timestamp: &str, body: &str) -> (m: String)
    ensures
        m@ == timestamp@ + body@,
{
    concat2(timestamp, body)
}

/// Whether a request is genuine: its signature is valid for the timestamp
/// followed by the body, under the application's key.
pub fn is_genuine(key: &Ed25519Key, timestamp: &str, body: &str, signature: &Ed25519Signature) -> (ok: bool)
    ensures
        ok == ed25519_verifies(key@, encode_utf8(timestamp@ + body@), signature@),
{
    let message = signed_message(timestamp, body);
    verify_signature(key, message.as_str().as_bytes(), signature)
}

/// Whether an interaction is Discord's check request (type 1), the only one
/// whose signature is checked.
pub fn is_check_request(interaction_type: usize) -> (r: bool)
    ensures
        r == (interaction_type == 1),
{
    interaction_type == 1
}

/// `Hello {who}, this is an AWS Lambda HTTP request`.
pub fn greeting(who: &str) -> (s: String)
    ensures
        s@ == "Hello "@ + who@ + ", this is an AWS Lambda HTTP request"@,
{
    concat3("Hello ", who, ", this is an AWS Lambda HTTP request")
}

} // verus!
