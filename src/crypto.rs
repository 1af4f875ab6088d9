use vstd::prelude::*;

verus! {

/// Length of a SHA-256 digest, in bytes.
pub const DIGEST_BYTES: usize = 32;

/// The SHA-256 digest of `data`.
pub uninterp spec fn sha256_of(data: Seq<u8>) -> Seq<u8>;

/// Whether `signature` (DER) is a valid ES256 signature, ECDSA over P-256
/// with SHA-256, of `message` under the SEC1-encoded public key `key`.
pub uninterp spec fn es256_accepts(key: Seq<u8>, message: Seq<u8>, signature: Seq<u8>) -> bool;

/// The unpadded base64url encoding of `data`, as ASCII bytes.
pub uninterp spec fn base64url_of(data: Seq<u8>) -> Seq<u8>;

/// Relies on base64's URL-safe engine without padding: the encoding of the
/// data as a string, handed out as its bytes. Its output length is computed
/// with a checked multiplication that cannot fail for inputs of this size.
#[verifier::external_body]
pub(crate) fn base64url(data: &Vec<u8>) -> (r: Vec<u8>)
    requires
        data@.len() <= 1024,
    ensures
        r@ == base64url_of(data@),
{
    <base64::engine::GeneralPurpose as base64::Engine>::encode(
        &base64::engine::general_purpose::URL_SAFE_NO_PAD,
        data.as_slice(),
    ).into_bytes()
}

/// Relies on sha2::Sha256::digest: the 32-byte SHA-256 digest of the data.
#[verifier::external_body]
pub(crate) fn sha256(data: &Vec<u8>) -> (r: Vec<u8>)
    ensures
        r@ == sha256_of(data@),
        r@.len() == DIGEST_BYTES,
{
    <sha2::Sha256 as sha2::Digest>::digest(data.as_slice()).to_vec()
}

/// Relies on p256's ECDSA verifying key: the key is decoded as a SEC1 point,
/// the signature from DER, and the message verified with SHA-256; a key or a
/// signature that does not decode is a refusal.
#[verifier::external_body]
fn es256_verify(key: &Vec<u8>, message: &Vec<u8>, signature: &Vec<u8>) -> (r: bool)
    ensures
        r == es256_accepts(key@, message@, signature@),
{
    let k = match p256::ecdsa::VerifyingKey::from_sec1_bytes(key.as_slice()) {
        Ok(k) => k,
        Err(_) => return false,
    };
    let s = match p256::ecdsa::Signature::from_der(signature.as_slice()) {
        Ok(s) => s,
        Err(_) => return false,
    };
    <p256::ecdsa::VerifyingKey as p256::ecdsa::signature::Verifier<p256::ecdsa::Signature>>::verify(
        &k,
        message.as_slice(),
        &s,
    ).is_ok()
}

/// What an authenticator signs: its authenticator data followed by the
/// SHA-256 digest of the client data.
pub open spec fn signed_message(authenticator_data: Seq<u8>, client_data_json: Seq<u8>) -> Seq<u8> {
    authenticator_data + sha256_of(client_data_json)
}

/// Whether `signature` signs `authenticator_data` and `client_data_json`
/// under `key`.
pub open spec fn signature_covers(
    key: Seq<u8>,
    authenticator_data: Seq<u8>,
    client_data_json: Seq<u8>,
    signature: Seq<u8>,
) -> bool {
    es256_accepts(key, signed_message(authenticator_data, client_data_json), signature)
}

/// Verifies an authenticator's signature over `authenticator_data` and the
/// digest of `client_data_json` under the public key `key`.
pub fn verify_signature(
    key: &Vec<u8>,
    authenticator_data: &Vec<u8>,
    client_data_json: &Vec<u8>,
    signature: &Vec<u8>,
) -> (r: bool)
    ensures
        r == signature_covers(key@, authenticator_data@, client_data_json@, signature@),
{
    let digest = sha256(client_data_json);
    let mut message: Vec<u8> = Vec::new();
    let mut i: usize = 0;
    while i < authenticator_data.len()
        invariant
            i <= authenticator_data@.len(),
            message@ == authenticator_data@.subrange(0, i as int),
        decreases authenticator_data@.len() - i,
    {
        message.push(authenticator_data[i]);
        i = i + 1;
        assert(message@ =~= authenticator_data@.subrange(0, i as int));
    }
    let mut j: usize = 0;
    while j < digest.len()
        invariant
            j <= digest@.len(),
            message@ == authenticator_data@ + digest@.subrange(0, j as int),
        decreases digest@.len() - j,
    {
        message.push(digest[j]);
        j = j + 1;
        assert(message@ =~= authenticator_data@ + digest@.subrange(0, j as int));
    }
    assert(digest@.subrange(0, digest@.len() as int) =~= digest@);
    es256_verify(key, &message, signature)
}

} // verus!
