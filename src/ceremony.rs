use vstd::prelude::*;

use crate::bytes::bytes_equal;
use crate::challenges::{Ceremony, CeremonyKind, CeremonyView};
use crate::crypto::{base64url, base64url_of, sha256, sha256_of, signature_covers, verify_signature};
use crate::error::AuthError;
use vstd::utf8::encode_utf8;

verus! {

/// The relying party that clients must address: its id and its exact origin
/// (scheme, host and port).
pub struct RelyingParty {
    pub id: String,
    pub origin: String,
}

/// The longest server challenge a ceremony can be answered for, in bytes.
pub const MAX_CHALLENGE_BYTES: usize = 1024;

/// Where the attested credential data starts in registration authenticator
/// data: after the relying party id hash, the flags, the signature counter, the
/// 16-byte authenticator model id and the two-byte credential id length.
pub const ATTESTED_START: usize = 55;

/// What a client sends to finish a registration ceremony.
pub struct RegistrationResponse {
    /// The client data the browser produced and the authenticator signed over.
    pub client_data_json: Vec<u8>,
    /// The authenticator data: the 32-byte SHA-256 of the relying party id, a
    /// flags byte, the signature counter as four big-endian bytes, a 16-byte
    /// authenticator model id, the credential id's length as two big-endian
    /// bytes, the credential id, then the credential's public key (a
    /// SEC1-encoded P-256 point).
    pub authenticator_data: Vec<u8>,
    /// The self-attestation: the new key's signature over the authenticator
    /// data and the digest of the client data.
    pub signature: Vec<u8>,
}

/// What a client sends to finish an authentication ceremony.
pub struct AssertionResponse {
    pub credential_id: Vec<u8>,
    /// The client data the browser produced and the authenticator signed over.
    pub client_data_json: Vec<u8>,
    /// The authenticator data: the 32-byte SHA-256 of the relying party id, a
    /// flags byte, the signature counter as four big-endian bytes, then any
    /// extensions.
    pub authenticator_data: Vec<u8>,
    pub signature: Vec<u8>,
}

/// Whether `s` holds `p` starting at position `at`.
pub open spec fn holds_at(s: Seq<u8>, at: int, p: Seq<u8>) -> bool {
    0 <= at && at + p.len() <= s.len() && s.subrange(at, at + p.len()) == p
}

/// The opening of client data up to the challenge, for a ceremony of kind `kind`.
pub open spec fn client_data_head(kind: CeremonyKind) -> Seq<u8> {
    encode_utf8(
        match kind {
            CeremonyKind::Registration => "{\"type\":\"webauthn.create\",\"challenge\":\""@,
            CeremonyKind::Authentication => "{\"type\":\"webauthn.get\",\"challenge\":\""@,
        },
    )
}

/// What separates the challenge from the origin in client data.
pub open spec fn origin_key() -> Seq<u8> {
    encode_utf8("\",\"origin\":\""@)
}

/// The part of client data that names the ceremony's type and challenge: the
/// opening, the challenge in unpadded base64url, and the origin's key.
pub open spec fn type_and_challenge(kind: CeremonyKind, challenge: Seq<u8>) -> Seq<u8> {
    client_data_head(kind) + base64url_of(challenge) + origin_key()
}

/// The part of client data that names the origin, with its closing quote.
pub open spec fn origin_part(origin: Seq<char>) -> Seq<u8> {
    encode_utf8(origin) + seq![0x22u8]
}

/// The verdict on client data for ceremony `c` and relying party origin
/// `origin`. The client data must open with the ceremony's type and its exact
/// challenge, then name exactly the origin, which a `,` or a `}` must close.
pub open spec fn client_data_verdict(client_data: Seq<u8>, c: CeremonyView, origin: Seq<char>) -> Result<
    (),
    AuthError,
> {
    let tc = type_and_challenge(c.kind, c.challenge);
    let op = origin_part(origin);
    let end = tc.len() + op.len();
    if c.challenge.len() > MAX_CHALLENGE_BYTES || !holds_at(client_data, 0, tc) {
        Err(AuthError::ChallengeMismatch)
    } else if !holds_at(client_data, tc.len() as int, op) || end >= client_data.len() || !(
    client_data[end as int] == 0x2c || client_data[end as int] == 0x7d) {
        Err(AuthError::OriginMismatch)
    } else {
        Ok(())
    }
}

/// Whether authenticator data opens with the SHA-256 of the relying party id.
pub open spec fn names_relying_party(authenticator_data: Seq<u8>, rp_id: Seq<char>) -> bool {
    holds_at(authenticator_data, 0, sha256_of(encode_utf8(rp_id)))
}

/// The credential id and public key held by registration authenticator data,
/// if it is well formed: the credential id is not empty and a non-empty key
/// follows it.
pub open spec fn attested_credential(d: Seq<u8>) -> Option<(Seq<u8>, Seq<u8>)> {
    if d.len() < ATTESTED_START {
        None
    } else {
        let n = d[ATTESTED_START - 2] as int * 256 + d[ATTESTED_START - 1] as int;
        if n == 0 || ATTESTED_START + n >= d.len() {
            None
        } else {
            Some((d.subrange(ATTESTED_START as int, ATTESTED_START + n), d.subrange(ATTESTED_START + n, d.len() as int)))
        }
    }
}

/// The signature counter that authenticator data reports, if it is long enough.
pub open spec fn reported_counter(d: Seq<u8>) -> Option<u32> {
    if d.len() < 37 {
        None
    } else {
        Some(
            (d[33] as int * 0x1000000 + d[34] as int * 0x10000 + d[35] as int * 0x100
                + d[36] as int) as u32,
        )
    }
}

/// The verdict on a registration response for ceremony `c` and relying party
/// `rp`: the new credential's id and key, or the first check failed.
/// `signature_valid` is whether the self-attestation signature verified under
/// the key that the authenticator data holds.
pub open spec fn registration_verdict(
    c: CeremonyView,
    rp: RelyingParty,
    client_data: Seq<u8>,
    authenticator_data: Seq<u8>,
    signature_valid: bool,
) -> Result<(Seq<u8>, Seq<u8>), AuthError> {
    match client_data_verdict(client_data, c, rp.origin@) {
        Err(e) => Err(e),
        Ok(()) => if !names_relying_party(authenticator_data, rp.id@) {
            Err(AuthError::OriginMismatch)
        } else {
            match attested_credential(authenticator_data) {
                None => Err(AuthError::MalformedAttestation),
                Some(parts) => if signature_valid {
                    Ok(parts)
                } else {
                    Err(AuthError::SignatureInvalid)
                },
            }
        },
    }
}

/// Whether a registration response's self-attestation verifies: its
/// authenticator data is well formed and the signature covers that data and
/// the client data under the public key it holds.
pub open spec fn attestation_signature_valid(response: RegistrationResponse) -> bool {
    match attested_credential(response.authenticator_data@) {
        None => false,
        Some(parts) => signature_covers(
            parts.1,
            response.authenticator_data@,
            response.client_data_json@,
            response.signature@,
        ),
    }
}

/// Verifies a registration response's self-attestation.
pub fn verify_attestation(response: &RegistrationResponse) -> (r: bool)
    ensures
        r == attestation_signature_valid(*response),
{
    match parse_attested_credential(&response.authenticator_data) {
        Ok((_, key)) => verify_signature(
            &key,
            &response.authenticator_data,
            &response.client_data_json,
            &response.signature,
        ),
        Err(_) => false,
    }
}

/// The verdict on an assertion for ceremony `c` and relying party `rp`: the
/// counter it reports, or the first check failed. `signature_valid` is whether
/// the signature verified against the stored public key of the asserted credential.
pub open spec fn assertion_verdict(
    c: CeremonyView,
    rp: RelyingParty,
    credential_id: Seq<u8>,
    client_data: Seq<u8>,
    authenticator_data: Seq<u8>,
    signature_valid: bool,
) -> Result<u32, AuthError> {
    if !c.allowed_credentials.contains(credential_id) {
        Err(AuthError::UnknownCredential)
    } else if !signature_valid {
        Err(AuthError::SignatureInvalid)
    } else {
        match client_data_verdict(client_data, c, rp.origin@) {
            Err(e) => Err(e),
            Ok(()) => if !names_relying_party(authenticator_data, rp.id@) {
                Err(AuthError::OriginMismatch)
            } else {
                match reported_counter(authenticator_data) {
                    None => Err(AuthError::Validation),
                    Some(n) => Ok(n),
                }
            },
        }
    }
}

/// A registration response is accepted exactly when its client data names the
/// ceremony's type, challenge and the relying party's origin, its
/// authenticator data names the relying party and is well formed, and its
/// signature verified.
pub proof fn lemma_registration_accepted_iff(
    c: CeremonyView,
    rp: RelyingParty,
    client_data: Seq<u8>,
    authenticator_data: Seq<u8>,
    signature_valid: bool,
)
    ensures
        registration_verdict(c, rp, client_data, authenticator_data, signature_valid) is Ok <==> {
            &&& client_data_verdict(client_data, c, rp.origin@) is Ok
            &&& names_relying_party(authenticator_data, rp.id@)
            &&& attested_credential(authenticator_data) is Some
            &&& signature_valid
        },
{
}

/// Changing one byte of the type and challenge that client data names always
/// gives a challenge mismatch, in registration and in authentication alike
/// (once the credential is allowed and its signature verified).
pub proof fn lemma_flipped_challenge_byte(
    c: CeremonyView,
    rp: RelyingParty,
    credential_id: Seq<u8>,
    client_data: Seq<u8>,
    authenticator_data: Seq<u8>,
    i: int,
    b: u8,
)
    requires
        holds_at(client_data, 0, type_and_challenge(c.kind, c.challenge)),
        0 <= i < type_and_challenge(c.kind, c.challenge).len(),
        b != client_data[i],
    ensures
        registration_verdict(c, rp, client_data.update(i, b), authenticator_data, true) == Err::<
            (Seq<u8>, Seq<u8>),
            AuthError,
        >(AuthError::ChallengeMismatch),
        c.allowed_credentials.contains(credential_id) ==> assertion_verdict(
            c,
            rp,
            credential_id,
            client_data.update(i, b),
            authenticator_data,
            true,
        ) == Err::<u32, AuthError>(AuthError::ChallengeMismatch),
{
    let tc = type_and_challenge(c.kind, c.challenge);
    let flipped = client_data.update(i, b);
    assert(flipped.subrange(0, tc.len() as int)[i] != tc[i]);
}

/// An assertion is accepted exactly when its credential was allowed, its
/// signature verified, its client data names the ceremony's type, challenge
/// and the relying party's origin, and its authenticator data names the
/// relying party and reports a counter.
pub proof fn lemma_assertion_accepted_iff(
    c: CeremonyView,
    rp: RelyingParty,
    credential_id: Seq<u8>,
    client_data: Seq<u8>,
    authenticator_data: Seq<u8>,
    signature_valid: bool,
)
    ensures
        assertion_verdict(c, rp, credential_id, client_data, authenticator_data, signature_valid) is Ok
            <==> {
            &&& c.allowed_credentials.contains(credential_id)
            &&& signature_valid
            &&& client_data_verdict(client_data, c, rp.origin@) is Ok
            &&& names_relying_party(authenticator_data, rp.id@)
            &&& reported_counter(authenticator_data) is Some
        },
{
}

/// Reads the new credential's id and public key out of registration
/// authenticator data.
pub fn parse_attested_credential(data: &Vec<u8>) -> (r: Result<(Vec<u8>, Vec<u8>), AuthError>)
    ensures
        match attested_credential(data@) {
            None => r == Err::<(Vec<u8>, Vec<u8>), AuthError>(AuthError::MalformedAttestation),
            Some(parts) => r matches Ok(out) && out.0@ == parts.0 && out.1@ == parts.1,
        },
{
    if data.len() < ATTESTED_START {
        return Err(AuthError::MalformedAttestation);
    }
    let n: usize = data[ATTESTED_START - 2] as usize * 256 + data[ATTESTED_START - 1] as usize;
    if n == 0 || n >= data.len() - ATTESTED_START {
        return Err(AuthError::MalformedAttestation);
    }
    let end: usize = ATTESTED_START + n;
    let mut id: Vec<u8> = Vec::new();
    let mut i: usize = ATTESTED_START;
    while i < end
        invariant
            ATTESTED_START <= i <= end,
            end < data@.len(),
            id@ == data@.subrange(ATTESTED_START as int, i as int),
        decreases end - i,
    {
        id.push(data[i]);
        i = i + 1;
        assert(id@ =~= data@.subrange(ATTESTED_START as int, i as int));
    }
    let mut key: Vec<u8> = Vec::new();
    while i < data.len()
        invariant
            end <= i <= data@.len(),
            key@ == data@.subrange(end as int, i as int),
        decreases data@.len() - i,
    {
        key.push(data[i]);
        i = i + 1;
        assert(key@ =~= data@.subrange(end as int, i as int));
    }
    Ok((id, key))
}

/// Reads the signature counter out of authenticator data.
pub fn parse_signature_counter(data: &Vec<u8>) -> (r: Result<u32, AuthError>)
    ensures
        match reported_counter(data@) {
            None => r == Err::<u32, AuthError>(AuthError::Validation),
            Some(n) => r == Ok::<u32, AuthError>(n),
        },
{
    if data.len() < 37 {
        return Err(AuthError::Validation);
    }
    let n: u32 = data[33] as u32 * 0x1000000 + data[34] as u32 * 0x10000 + data[35] as u32 * 0x100
        + data[36] as u32;
    Ok(n)
}

/// Whether `ids` holds the byte string `id`.
pub fn contains_id(ids: &Vec<Vec<u8>>, id: &Vec<u8>) -> (r: bool)
    ensures
        r == ids@.map_values(|v: Vec<u8>| v@).contains(id@),
{
    let ghost views = ids@.map_values(|v: Vec<u8>| v@);
    let mut i: usize = 0;
    while i < ids.len()
        invariant
            i <= ids@.len(),
            views == ids@.map_values(|v: Vec<u8>| v@),
            forall|j: int| 0 <= j < i ==> #[trigger] views[j] != id@,
        decreases ids@.len() - i,
    {
        if bytes_equal(&ids[i], id) {
            assert(views[i as int] == id@);
            return true;
        }
        i = i + 1;
    }
    false
}

/// Whether `s` holds `p` starting at position `at`.
pub fn bytes_at(s: &Vec<u8>, at: usize, p: &Vec<u8>) -> (r: bool)
    ensures
        r == holds_at(s@, at as int, p@),
{
    if at > s.len() || p.len() > s.len() - at {
        return false;
    }
    let total: usize = s.len();
    let mut i: usize = 0;
    while i < p.len()
        invariant
            total == s@.len(),
            at + p@.len() <= s@.len(),
            i <= p@.len(),
            forall|j: int| 0 <= j < i ==> s@[at + j] == p@[j],
        decreases p@.len() - i,
    {
        if s[at + i] != p[i] {
            assert(s@.subrange(at as int, at + p@.len())[i as int] != p@[i as int]);
            return false;
        }
        i = i + 1;
    }
    assert(s@.subrange(at as int, at + p@.len()) =~= p@);
    true
}

/// Checks client data against the ceremony it answers and the relying
/// party's origin.
pub fn check_client_data(client_data: &Vec<u8>, c: &Ceremony, origin: &String) -> (r: Result<(), AuthError>)
    ensures
        r == client_data_verdict(client_data@, c@, origin@),
{
    if c.challenge.len() > MAX_CHALLENGE_BYTES {
        return Err(AuthError::ChallengeMismatch);
    }
    let mut tc: Vec<u8> = match c.kind {
        CeremonyKind::Registration => "{\"type\":\"webauthn.create\",\"challenge\":\"".as_bytes_vec(),
        CeremonyKind::Authentication => "{\"type\":\"webauthn.get\",\"challenge\":\"".as_bytes_vec(),
    };
    let mut encoded = base64url(&c.challenge);
    tc.append(&mut encoded);
    let mut key = "\",\"origin\":\"".as_bytes_vec();
    tc.append(&mut key);
    assert(tc@ =~= type_and_challenge(c.kind, c.challenge@));
    if !bytes_at(client_data, 0, &tc) {
        return Err(AuthError::ChallengeMismatch);
    }
    let mut op = origin.as_str().as_bytes_vec();
    op.push(0x22u8);
    assert(op@ =~= origin_part(origin@));
    if !bytes_at(client_data, tc.len(), &op) {
        return Err(AuthError::OriginMismatch);
    }
    let total: usize = client_data.len();
    let end: usize = tc.len() + op.len();
    if end >= client_data.len() || !(client_data[end] == 0x2c || client_data[end] == 0x7d) {
        return Err(AuthError::OriginMismatch);
    }
    Ok(())
}

/// Whether authenticator data opens with the SHA-256 of the relying party id.
pub fn check_relying_party(authenticator_data: &Vec<u8>, rp_id: &String) -> (r: bool)
    ensures
        r == names_relying_party(authenticator_data@, rp_id@),
{
    let id_bytes = rp_id.as_str().as_bytes_vec();
    let hash = sha256(&id_bytes);
    bytes_at(authenticator_data, 0, &hash)
}

/// Checks a registration response against the ceremony it answers and the
/// relying party, given whether its self-attestation verified, and yields the
/// new credential's id and public key.
pub fn check_registration(
    c: &Ceremony,
    rp: &RelyingParty,
    response: &RegistrationResponse,
    signature_valid: bool,
) -> (r: Result<(Vec<u8>, Vec<u8>), AuthError>)
    ensures
        match registration_verdict(
            c@,
            *rp,
            response.client_data_json@,
            response.authenticator_data@,
            signature_valid,
        ) {
            Err(e) => r == Err::<(Vec<u8>, Vec<u8>), AuthError>(e),
            Ok(parts) => r matches Ok(out) && out.0@ == parts.0 && out.1@ == parts.1,
        },
{
    match check_client_data(&response.client_data_json, c, &rp.origin) {
        Ok(()) => {},
        Err(e) => return Err(e),
    }
    if !check_relying_party(&response.authenticator_data, &rp.id) {
        return Err(AuthError::OriginMismatch);
    }
    let parts = match parse_attested_credential(&response.authenticator_data) {
        Ok(parts) => parts,
        Err(e) => return Err(e),
    };
    if !signature_valid {
        return Err(AuthError::SignatureInvalid);
    }
    Ok(parts)
}

/// Checks an assertion against the ceremony it answers and the relying party,
/// given whether its signature verified, and yields the counter it reports.
pub fn check_assertion(
    c: &Ceremony,
    rp: &RelyingParty,
    response: &AssertionResponse,
    signature_valid: bool,
) -> (r: Result<u32, AuthError>)
    ensures
        r == assertion_verdict(
            c@,
            *rp,
            response.credential_id@,
            response.client_data_json@,
            response.authenticator_data@,
            signature_valid,
        ),
{
    if !contains_id(&c.allowed_credentials, &response.credential_id) {
        return Err(AuthError::UnknownCredential);
    }
    if !signature_valid {
        return Err(AuthError::SignatureInvalid);
    }
    match check_client_data(&response.client_data_json, c, &rp.origin) {
        Ok(()) => {},
        Err(e) => return Err(e),
    }
    if !check_relying_party(&response.authenticator_data, &rp.id) {
        return Err(AuthError::OriginMismatch);
    }
    parse_signature_counter(&response.authenticator_data)
}

} // verus!
