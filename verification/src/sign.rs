//! The request signer: adds `timestamp` and `recvWindow` to a parameter
//! set, encodes it canonically, and appends an HMAC-SHA256 signature over
//! exactly those bytes as the final `signature` query component.

use vstd::prelude::*;
use vstd::string::StringSliceAdditionalSpecFns;
use vstd::string::StrSliceExecFns;
use hmac::Mac;
use crate::encoding::{dec_digits, hex_lower_of, push_bytes, to_hex_lower};
use crate::errors::ClientError;
use crate::params::{joined, spec_insert_pair, ParamValue, ParameterSet};

verus! {

/// The UTF-8 bytes a string contributes to a query.
pub open spec fn key_bytes(s: &str) -> Seq<u8> {
    s.spec_bytes()
}

/// Turn a string into its UTF-8 bytes.
pub fn str_bytes(s: &str) -> (r: Vec<u8>)
    ensures
        r@ == key_bytes(s),
{
    s.as_bytes_vec()
}

/// The HMAC-SHA256 tag for a key and message.
pub uninterp spec fn hmac_sha256_of(key: Seq<u8>, msg: Seq<u8>) -> Seq<u8>;

/// Relies on hmac's `Hmac<sha2::Sha256>` (RFC 2104 over SHA-256): the tag
/// is a function of the key and message bytes alone and is 32 bytes long;
/// `new_from_slice` pads or hashes a key of any length and never fails.
#[verifier::external_body]
fn hmac_sha256(key: &[u8], msg: &[u8]) -> (r: Vec<u8>)
    ensures
        r@ == hmac_sha256_of(key@, msg@),
        r@.len() == 32,
{
    let mut mac = <hmac::Hmac<sha2::Sha256> as Mac>::new_from_slice(key).unwrap();
    mac.update(msg);
    mac.finalize().into_bytes().to_vec()
}

/// The pairs actually signed: the caller's parameters with `timestamp`
/// added, and `recvWindow` added when the configured window is nonzero.
pub open spec fn signing_pairs(
    ps: Seq<(Seq<u8>, Seq<u8>)>,
    recv_window: u64,
    timestamp_ms: u64,
) -> Seq<(Seq<u8>, Seq<u8>)> {
    let with_window = if recv_window > 0 {
        spec_insert_pair(ps, key_bytes("recvWindow"), dec_digits(recv_window as nat))
    } else {
        ps
    };
    spec_insert_pair(with_window, key_bytes("timestamp"), dec_digits(timestamp_ms as nat))
}

/// The lowercase hexadecimal signature over a payload.
pub open spec fn spec_signature(secret: Seq<u8>, payload: Seq<u8>) -> Seq<u8> {
    hex_lower_of(hmac_sha256_of(secret, payload))
}

/// A signed query string: the canonical payload, then `&signature=` and
/// the signature computed over exactly the payload bytes — the signature
/// parameter is always last and never part of the sorted block.
pub open spec fn spec_signed_query(payload: Seq<u8>, secret: Seq<u8>) -> Seq<u8> {
    payload + key_bytes("&signature=") + spec_signature(secret, payload)
}

/// Sign a parameter set for an authenticated call.
///
/// Fails with `Authentication`, before anything is encoded or sent, if and
/// only if no secret key is configured. On success the result is the
/// canonical encoding of the caller's parameters with `timestamp` (and,
/// when the window is nonzero, `recvWindow`) added, followed by the
/// trailing `signature` pair.
pub fn build_signed_query(
    params: ParameterSet,
    secret: &Option<Vec<u8>>,
    recv_window: u64,
    timestamp_ms: u64,
) -> (r: Result<Vec<u8>, ClientError>)
    requires
        params.wf(),
    ensures
        r is Err <==> secret is None,
        r matches Err(e) ==> e == ClientError::Authentication,
        r matches Ok(q) ==> (secret matches Some(sec) && q@ == spec_signed_query(
            joined(signing_pairs(params@, recv_window, timestamp_ms)),
            sec@,
        )),
{
    match secret {
        Option::None => Result::Err(ClientError::Authentication),
        Option::Some(sec) => {
            let mut p = params;
            if recv_window > 0 {
                p.insert(str_bytes("recvWindow"), ParamValue::Unsigned(recv_window));
            }
            p.insert(str_bytes("timestamp"), ParamValue::Unsigned(timestamp_ms));
            proof {
                assert(p@ == signing_pairs(params@, recv_window, timestamp_ms));
            }
            let payload = p.encode();
            let tag = hmac_sha256(sec.as_slice(), payload.as_slice());
            let hexsig = to_hex_lower(tag.as_slice());
            let mut out = payload;
            let marker = str_bytes("&signature=");
            push_bytes(&mut out, marker.as_slice());
            push_bytes(&mut out, hexsig.as_slice());
            Result::Ok(out)
        },
    }
}

/// Signing is deterministic: identical parameter pairs, secret, window and
/// timestamp give byte-identical signed queries.
pub proof fn lemma_signing_deterministic(
    ps1: Seq<(Seq<u8>, Seq<u8>)>,
    ps2: Seq<(Seq<u8>, Seq<u8>)>,
    secret: Seq<u8>,
    recv_window: u64,
    timestamp_ms: u64,
)
    requires
        ps1 == ps2,
    ensures
        spec_signed_query(joined(signing_pairs(ps1, recv_window, timestamp_ms)), secret)
            == spec_signed_query(joined(signing_pairs(ps2, recv_window, timestamp_ms)), secret),
{
}

} // verus!
