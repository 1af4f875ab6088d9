use vstd::prelude::*;

use crate::bytes::copy_bytes;
use crate::ceremony::{
    assertion_verdict, attestation_signature_valid, check_assertion, check_registration,
    registration_verdict, verify_attestation, AssertionResponse, RegistrationResponse, RelyingParty,
};
use crate::crypto::{signature_covers, verify_signature};
use crate::challenges::{
    expiry_after, holds_id, lemma_ceremony_taken_once, live_entries, take_step, unique_ids,
    CeremonyKind, CeremonyView, ChallengeRegistry,
};
use crate::credentials::{
    counter_step, credential_position, holds_credential, owned_by, upsert_step, Credential, CredentialStore, CredentialView, UserAccount,
};
use crate::random::{fresh_id, random_bytes};
use crate::error::AuthError;
use crate::password::{bcrypt_accepts, hash_password, verify_password, DEFAULT_COST, MAX_COST, MIN_COST};
use crate::sessions::{issue_step, revoke_step, validate_step, Session, SessionGate, SessionView, TOKEN_BYTES};

verus! {

/// How long an issued ceremony stays open, in seconds.
pub const CEREMONY_TTL: u64 = 300;

/// How long a session stays valid, in seconds.
pub const SESSION_TTL: u64 = 86400;

/// Length of a server challenge, in bytes.
pub const CHALLENGE_BYTES: usize = 32;

/// The stable public identifier under which an account is known to authenticators.
pub open spec fn user_handle(id: u64) -> u128 {
    id as u128
}

/// The public identifier of account `id`.
pub fn id_to_uuid(id: u64) -> (r: u128)
    ensures
        r == user_handle(id),
{
    id as u128
}

/// Whether `password` logs in as `username`: the account exists, has a
/// password hash, and bcrypt accepts the password against it.
pub open spec fn password_accepted(store: CredentialStore, username: Seq<char>, password: Seq<char>) -> bool {
    exists|i: int|
        0 <= i < store.users@.len() && #[trigger] store.users@[i].username@ == username && (
        store.users@[i].password_hash matches Some(h) && bcrypt_accepts(password, h@))
}

/// The id of the account registered as `username`.
pub open spec fn account_id(store: CredentialStore, username: Seq<char>) -> u64 {
    store.users@[choose|i: int| 0 <= i < store.users@.len() && #[trigger] store.users@[i].username@ == username].id
}

/// What a client gets to begin registering a credential.
pub struct RegistrationChallenge {
    pub ceremony_id: u128,
    pub challenge: Vec<u8>,
    pub user_handle: u128,
    pub user_name: String,
    pub rp_id: String,
}

/// What a client gets to begin authenticating with a credential.
pub struct AuthenticationChallenge {
    pub ceremony_id: u128,
    pub challenge: Vec<u8>,
    pub allowed_credentials: Vec<Vec<u8>>,
}

/// The credential ids that account `username` holds, in the order they were bound.
pub open spec fn allowed_ids(store: CredentialStore, username: Seq<char>) -> Seq<Seq<u8>> {
    owned_by(store.credential_views(), account_id(store, username)).map_values(
        |c: CredentialView| c.credential_id,
    )
}

/// The id that no account has: a concealed ceremony is bound to it.
pub const NO_ACCOUNT: u64 = 0;

/// Whom an authentication ceremony for `username` is for: the account and
/// the credential ids it allows. An unknown user, or one without credentials,
/// is refused as such; when `conceal` is set it gets instead a ceremony bound
/// to no account and no credential, which no assertion can finish, so that
/// the answer does not tell which usernames exist.
pub open spec fn login_target(store: CredentialStore, username: Seq<char>, conceal: bool) -> Result<
    (u64, Seq<Seq<u8>>),
    AuthError,
> {
    if !store.has_username(username) {
        if conceal {
            Ok((NO_ACCOUNT, Seq::empty()))
        } else {
            Err(AuthError::UnknownUser)
        }
    } else if allowed_ids(store, username).len() == 0 {
        if conceal {
            Ok((NO_ACCOUNT, Seq::empty()))
        } else {
            Err(AuthError::NoCredentials)
        }
    } else {
        Ok((account_id(store, username), allowed_ids(store, username)))
    }
}

/// Whether an assertion's signature verifies under the stored public key of
/// the credential it names; an unknown credential verifies nothing.
pub open spec fn assertion_signature_valid(creds: Seq<CredentialView>, response: AssertionResponse) -> bool {
    holds_credential(creds, response.credential_id@) && signature_covers(
        creds[credential_position(creds, response.credential_id@)].public_key,
        response.authenticator_data@,
        response.client_data_json@,
        response.signature@,
    )
}

/// The outcome of finishing registration ceremony `id` with `response`, over
/// the open ceremonies and the credential records: the result, the ceremonies
/// left (the one taken is gone in every case) and the records after.
pub open spec fn register_finish_step(
    entries: Seq<(u128, CeremonyView)>,
    creds: Seq<CredentialView>,
    rp: RelyingParty,
    id: u128,
    response: RegistrationResponse,
    signature_valid: bool,
    now: u64,
) -> (Result<(), AuthError>, Seq<(u128, CeremonyView)>, Seq<CredentialView>) {
    let (taken, rest) = take_step(entries, id, now);
    match taken {
        Err(e) => (Err(e), rest, creds),
        Ok(c) => if c.kind != CeremonyKind::Registration {
            (Err(AuthError::InvalidCeremony), rest, creds)
        } else {
            match registration_verdict(
                c,
                rp,
                response.client_data_json@,
                response.authenticator_data@,
                signature_valid,
            ) {
                Err(e) => (Err(e), rest, creds),
                Ok(parts) => {
                    let (bound, after) = upsert_step(creds, c.user_id, parts.0, parts.1, now);
                    if bound is Ok {
                        (Ok(()), rest, after)
                    } else {
                        (Err(AuthError::DuplicateCredential), rest, creds)
                    }
                },
            }
        },
    }
}

/// The outcome of finishing authentication ceremony `id` with `response`, up
/// to the session: the account to open one for, or the error; the ceremonies
/// left (the one taken is gone in every case) and the credential records after.
pub open spec fn login_finish_step(
    entries: Seq<(u128, CeremonyView)>,
    creds: Seq<CredentialView>,
    rp: RelyingParty,
    id: u128,
    response: AssertionResponse,
    signature_valid: bool,
    now: u64,
) -> (Result<u64, AuthError>, Seq<(u128, CeremonyView)>, Seq<CredentialView>) {
    let (taken, rest) = take_step(entries, id, now);
    match taken {
        Err(e) => (Err(e), rest, creds),
        Ok(c) => if c.kind != CeremonyKind::Authentication {
            (Err(AuthError::InvalidCeremony), rest, creds)
        } else {
            match assertion_verdict(
                c,
                rp,
                response.credential_id@,
                response.client_data_json@,
                response.authenticator_data@,
                signature_valid,
            ) {
                Err(e) => (Err(e), rest, creds),
                Ok(n) => {
                    let (counted, after) = counter_step(creds, response.credential_id@, n);
                    match counted {
                        Ok(()) => (Ok(c.user_id), rest, after),
                        Err(AuthError::StaleCounter) => (Err(AuthError::ReplayDetected), rest, creds),
                        Err(_) => (Err(AuthError::UnknownCredential), rest, creds),
                    }
                },
            }
        },
    }
}

/// A ceremony id is accepted by a finish at most once: whatever the first
/// finish of `id` did (registration or authentication, success or failure), a
/// second finish of the same id, of either kind, is refused as an invalid ceremony.
pub proof fn lemma_finish_at_most_once(
    entries: Seq<(u128, CeremonyView)>,
    creds: Seq<CredentialView>,
    rp: RelyingParty,
    id: u128,
    registration: RegistrationResponse,
    assertion: AssertionResponse,
    signature_valid: bool,
    first: u64,
    second: u64,
)
    requires
        unique_ids(entries),
    ensures
        ({
            let after = register_finish_step(entries, creds, rp, id, registration, signature_valid, first);
            &&& register_finish_step(after.1, after.2, rp, id, registration, signature_valid, second).0 == Err::<
                (),
                AuthError,
            >(AuthError::InvalidCeremony)
            &&& login_finish_step(after.1, after.2, rp, id, assertion, signature_valid, second).0
                == Err::<u64, AuthError>(AuthError::InvalidCeremony)
        }),
        ({
            let after = login_finish_step(entries, creds, rp, id, assertion, signature_valid, first);
            &&& register_finish_step(after.1, after.2, rp, id, registration, signature_valid, second).0 == Err::<
                (),
                AuthError,
            >(AuthError::InvalidCeremony)
            &&& login_finish_step(after.1, after.2, rp, id, assertion, signature_valid, second).0
                == Err::<u64, AuthError>(AuthError::InvalidCeremony)
        }),
{
    lemma_ceremony_taken_once(entries, id, first, second);
}

/// A counter that does not advance ends an authentication as a replay: when
/// the ceremony is live and of the right kind and the assertion passes every
/// other check, a reported counter not above the stored one gives
/// `ReplayDetected` and leaves the credential records as they were.
pub proof fn lemma_stale_counter_is_replay(
    entries: Seq<(u128, CeremonyView)>,
    creds: Seq<CredentialView>,
    rp: RelyingParty,
    id: u128,
    response: AssertionResponse,
    signature_valid: bool,
    now: u64,
)
    requires
        take_step(entries, id, now).0 matches Ok(c) && c.kind == CeremonyKind::Authentication && (
        assertion_verdict(
            c,
            rp,
            response.credential_id@,
            response.client_data_json@,
            response.authenticator_data@,
            signature_valid,
        ) matches Ok(n) && holds_credential(creds, response.credential_id@) && n <= creds[credential_position(
            creds,
            response.credential_id@,
        )].signature_counter),
    ensures
        login_finish_step(entries, creds, rp, id, response, signature_valid, now).0 == Err::<u64, AuthError>(
            AuthError::ReplayDetected,
        ),
        login_finish_step(entries, creds, rp, id, response, signature_valid, now).2 == creds,
{
}

/// The authentication core: accounts and credentials, open ceremonies, and
/// live sessions, for one relying party.
pub struct AuthService {
    pub store: CredentialStore,
    pub ceremonies: ChallengeRegistry,
    pub sessions: SessionGate,
    pub rp: RelyingParty,
    pub cost: u32,
    /// Whether an authentication ceremony for an unknown user, or one without
    /// credentials, is opened all the same rather than refused.
    pub conceal_unknown_users: bool,
}

impl AuthService {
    pub open spec fn wf(&self) -> bool {
        &&& self.store.wf()
        &&& self.ceremonies.wf()
        &&& self.sessions.wf()
        &&& MIN_COST <= self.cost <= MAX_COST
    }

    /// A service for the relying party `rp_id` at `origin`, with no accounts.
    pub fn new(rp_id: String, origin: String) -> (r: Self)
        ensures
            r.wf(),
            r.rp.id == rp_id,
            r.rp.origin == origin,
            r.store.users@.len() == 0,
            r.store.credentials@.len() == 0,
            r.store.next_user_id == 1,
            r.ceremonies.view_entries().len() == 0,
            r.ceremonies.ttl == CEREMONY_TTL,
            r.sessions.view_sessions().len() == 0,
            r.sessions.ttl == SESSION_TTL,
            r.cost == DEFAULT_COST,
            !r.conceal_unknown_users,
    {
        AuthService {
            store: CredentialStore::new(),
            ceremonies: ChallengeRegistry::new(CEREMONY_TTL),
            sessions: SessionGate::new(SESSION_TTL),
            rp: RelyingParty { id: rp_id, origin },
            cost: DEFAULT_COST,
            conceal_unknown_users: false,
        }
    }

    /// A service like `new`, hashing passwords at work factor `cost`, which
    /// must lie in bcrypt's range.
    pub fn with_cost(rp_id: String, origin: String, cost: u32) -> (r: Result<Self, AuthError>)
        ensures
            !(MIN_COST <= cost <= MAX_COST) <==> r == Err::<Self, AuthError>(AuthError::Validation),
            MIN_COST <= cost <= MAX_COST ==> r is Ok,
            r matches Ok(s) ==> {
                &&& s.wf()
                &&& s.rp.id == rp_id
                &&& s.rp.origin == origin
                &&& s.cost == cost
                &&& !s.conceal_unknown_users
                &&& s.store.users@.len() == 0
                &&& s.store.credentials@.len() == 0
                &&& s.store.next_user_id == 1
                &&& s.ceremonies.view_entries().len() == 0
                &&& s.sessions.view_sessions().len() == 0
            },
    {
        if cost < MIN_COST || cost > MAX_COST {
            return Err(AuthError::Validation);
        }
        let mut s = AuthService::new(rp_id, origin);
        s.cost = cost;
        Ok(s)
    }

    /// Registers `username` with a bcrypt hash of `password`. A taken username
    /// is a conflict; otherwise only exhausted ids or a failing random source
    /// make it fail.
    pub fn register_password(&mut self, username: &str, password: &str) -> (r: Result<UserAccount, AuthError>)
        requires
            old(self).wf(),
        ensures
            final(self).wf(),
            final(self).ceremonies == old(self).ceremonies,
            final(self).sessions == old(self).sessions,
            final(self).rp == old(self).rp,
            final(self).cost == old(self).cost,
            final(self).conceal_unknown_users == old(self).conceal_unknown_users,
            (r == Err::<UserAccount, AuthError>(AuthError::Conflict)) <==> old(self).store.has_username(username@),
            !old(self).store.has_username(username@) ==> r is Ok || r == Err::<UserAccount, AuthError>(
                AuthError::Internal,
            ),
            r is Err ==> final(self).store == old(self).store,
            r matches Ok(u) ==> {
                &&& u.id == old(self).store.next_user_id
                &&& u.username@ == username@
                &&& (u.password_hash matches Some(h) && bcrypt_accepts(password@, h@))
                &&& final(self).store.users@ == old(self).store.users@.push(u)
                &&& final(self).store.credentials == old(self).store.credentials
            },
    {
        if self.store.find_user(username).is_ok() {
            return Err(AuthError::Conflict);
        }
        let hash = match hash_password(password, self.cost) {
            Ok(h) => h,
            Err(_) => return Err(AuthError::Internal),
        };
        self.store.create_user(username, Some(hash))
    }

    /// Logs `username` in with `password` and opens a session for the account.
    /// A wrong username or password gives `BadCredentials`; a right one fails
    /// only when no fresh session token could be had.
    pub fn login_password(&mut self, username: &str, password: &str, now: u64) -> (r: Result<Session, AuthError>)
        requires
            old(self).wf(),
        ensures
            final(self).wf(),
            final(self).store == old(self).store,
            final(self).ceremonies == old(self).ceremonies,
            final(self).rp == old(self).rp,
            final(self).cost == old(self).cost,
            final(self).conceal_unknown_users == old(self).conceal_unknown_users,
            final(self).sessions.ttl == old(self).sessions.ttl,
            (r == Err::<Session, AuthError>(AuthError::BadCredentials)) <==> !password_accepted(
                old(self).store,
                username@,
                password@,
            ),
            password_accepted(old(self).store, username@, password@) ==> r is Ok || r == Err::<
                Session,
                AuthError,
            >(AuthError::Internal) || r == Err::<Session, AuthError>(AuthError::Conflict),
            r is Err ==> final(self).sessions.view_sessions() == old(self).sessions.view_sessions(),
            r matches Ok(s) ==> {
                &&& s.token@.len() == TOKEN_BYTES
                &&& (Ok::<SessionView, AuthError>(s@), final(self).sessions.view_sessions()) == issue_step(
                    old(self).sessions.view_sessions(),
                    account_id(old(self).store, username@),
                    s.token@,
                    now,
                    old(self).sessions.ttl,
                )
            },
    {
        let account = match self.store.find_user(username) {
            Ok(a) => a,
            Err(_) => return Err(AuthError::BadCredentials),
        };
        let accepted = match &account.password_hash {
            Some(h) => verify_password(password, h.as_str()),
            None => false,
        };
        if !accepted {
            return Err(AuthError::BadCredentials);
        }
        self.sessions.issue(account.id, now)
    }

    /// Opens a registration ceremony for the existing account `username`: a
    /// fresh random challenge, stored under a fresh ceremony id. Expired
    /// ceremonies are dropped first.
    pub fn webauthn_register_start(&mut self, username: &str, now: u64) -> (r: Result<
        RegistrationChallenge,
        AuthError,
    >)
        requires
            old(self).wf(),
        ensures
            final(self).wf(),
            final(self).store == old(self).store,
            final(self).sessions == old(self).sessions,
            final(self).rp == old(self).rp,
            final(self).cost == old(self).cost,
            final(self).conceal_unknown_users == old(self).conceal_unknown_users,
            final(self).ceremonies.ttl == old(self).ceremonies.ttl,
            !old(self).store.has_username(username@) ==> r == Err::<RegistrationChallenge, AuthError>(
                AuthError::UnknownUser,
            ),
            old(self).store.has_username(username@) ==> r is Ok || r == Err::<
                RegistrationChallenge,
                AuthError,
            >(AuthError::Internal) || r == Err::<RegistrationChallenge, AuthError>(AuthError::Conflict),
            r is Err ==> final(self).ceremonies.view_entries() == live_entries(
                old(self).ceremonies.view_entries(),
                now,
            ),
            r matches Ok(ch) ==> {
                let user = account_id(old(self).store, username@);
                &&& ch.challenge@.len() == CHALLENGE_BYTES
                &&& ch.user_handle == user_handle(user)
                &&& ch.user_name@ == username@
                &&& ch.rp_id == old(self).rp.id
                &&& !holds_id(live_entries(old(self).ceremonies.view_entries(), now), ch.ceremony_id)
                &&& final(self).ceremonies.view_entries() == live_entries(
                    old(self).ceremonies.view_entries(),
                    now,
                ).push(
                    (
                        ch.ceremony_id,
                        CeremonyView {
                            kind: CeremonyKind::Registration,
                            user_id: user,
                            challenge: ch.challenge@,
                            allowed_credentials: Seq::empty(),
                            created_at: now,
                            expires_at: expiry_after(now, old(self).ceremonies.ttl),
                        },
                    ),
                )
            },
    {
        self.ceremonies.sweep(now);
        if !self.isUserInDatabase(username) {
            return Err(AuthError::UnknownUser);
        }
        let challenge = match random_bytes(CHALLENGE_BYTES) {
            Some(c) => c,
            None => return Err(AuthError::Internal),
        };
        let ceremony_id = match fresh_id() {
            Some(id) => id,
            None => return Err(AuthError::Internal),
        };
        self.begin_registration(username, ceremony_id, challenge, now)
    }

    /// Opens a registration ceremony for the existing account `username` under
    /// `ceremony_id` with server challenge `challenge`; an id already open is
    /// a conflict.
    pub fn begin_registration(&mut self, username: &str, ceremony_id: u128, challenge: Vec<u8>, now: u64) -> (r:
        Result<RegistrationChallenge, AuthError>)
        requires
            old(self).wf(),
        ensures
            final(self).wf(),
            final(self).store == old(self).store,
            final(self).sessions == old(self).sessions,
            final(self).rp == old(self).rp,
            final(self).cost == old(self).cost,
            final(self).conceal_unknown_users == old(self).conceal_unknown_users,
            final(self).ceremonies.ttl == old(self).ceremonies.ttl,
            !old(self).store.has_username(username@) ==> r == Err::<RegistrationChallenge, AuthError>(
                AuthError::UnknownUser,
            ),
            old(self).store.has_username(username@) && holds_id(old(self).ceremonies.view_entries(), ceremony_id)
                ==> r == Err::<RegistrationChallenge, AuthError>(AuthError::Conflict),
            r is Err ==> final(self).ceremonies.view_entries() == old(self).ceremonies.view_entries(),
            old(self).store.has_username(username@) && !holds_id(old(self).ceremonies.view_entries(), ceremony_id)
                ==> r is Ok,
            r matches Ok(ch) ==> {
                let user = account_id(old(self).store, username@);
                &&& ch.ceremony_id == ceremony_id
                &&& ch.challenge@ == challenge@
                &&& ch.user_handle == user_handle(user)
                &&& ch.user_name@ == username@
                &&& ch.rp_id == old(self).rp.id
                &&& final(self).ceremonies.view_entries() == old(self).ceremonies.view_entries().push(
                    (
                        ceremony_id,
                        CeremonyView {
                            kind: CeremonyKind::Registration,
                            user_id: user,
                            challenge: challenge@,
                            allowed_credentials: Seq::empty(),
                            created_at: now,
                            expires_at: expiry_after(now, old(self).ceremonies.ttl),
                        },
                    ),
                )
            },
    {
        let account = match self.store.find_user(username) {
            Ok(a) => a,
            Err(_) => return Err(AuthError::UnknownUser),
        };
        proof {
            lemma_account_id(self.store, account);
        }
        let handed = copy_bytes(&challenge);
        let no_credentials: Vec<Vec<u8>> = Vec::new();
        assert(no_credentials@.map_values(|v: Vec<u8>| v@) =~= Seq::<Seq<u8>>::empty());
        match self.ceremonies.insert(ceremony_id, CeremonyKind::Registration, account.id, challenge, no_credentials, now) {
            Ok(()) => {},
            Err(e) => return Err(e),
        }
        Ok(RegistrationChallenge {
            ceremony_id,
            challenge: handed,
            user_handle: id_to_uuid(account.id),
            user_name: account.username,
            rp_id: self.rp.id.clone(),
        })
    }

    /// Finishes registration ceremony `ceremony_id`: the ceremony is consumed,
    /// the response checked against it (its self-attestation signature
    /// included), and the new credential bound to the ceremony's account.
    pub fn webauthn_register_finish(
        &mut self,
        ceremony_id: u128,
        response: &RegistrationResponse,
        now: u64,
    ) -> (r: Result<(), AuthError>)
        requires
            old(self).wf(),
        ensures
            final(self).wf(),
            final(self).store.users == old(self).store.users,
            final(self).store.next_user_id == old(self).store.next_user_id,
            final(self).sessions == old(self).sessions,
            final(self).rp == old(self).rp,
            final(self).cost == old(self).cost,
            final(self).conceal_unknown_users == old(self).conceal_unknown_users,
            final(self).ceremonies.ttl == old(self).ceremonies.ttl,
            (r, final(self).ceremonies.view_entries(), final(self).store.credential_views())
                == register_finish_step(
                old(self).ceremonies.view_entries(),
                old(self).store.credential_views(),
                old(self).rp,
                ceremony_id,
                *response,
                attestation_signature_valid(*response),
                now,
            ),
    {
        let signature_valid = verify_attestation(response);
        self.finish_registration(ceremony_id, response, signature_valid, now)
    }

    /// Finishes registration ceremony `ceremony_id` as `webauthn_register_finish`
    /// does, given whether the response's self-attestation verified.
    pub fn finish_registration(
        &mut self,
        ceremony_id: u128,
        response: &RegistrationResponse,
        signature_valid: bool,
        now: u64,
    ) -> (r: Result<(), AuthError>)
        requires
            old(self).wf(),
        ensures
            final(self).wf(),
            final(self).store.users == old(self).store.users,
            final(self).store.next_user_id == old(self).store.next_user_id,
            final(self).sessions == old(self).sessions,
            final(self).rp == old(self).rp,
            final(self).cost == old(self).cost,
            final(self).conceal_unknown_users == old(self).conceal_unknown_users,
            final(self).ceremonies.ttl == old(self).ceremonies.ttl,
            (r, final(self).ceremonies.view_entries(), final(self).store.credential_views())
                == register_finish_step(
                old(self).ceremonies.view_entries(),
                old(self).store.credential_views(),
                old(self).rp,
                ceremony_id,
                *response,
                signature_valid,
                now,
            ),
    {
        let c = match self.ceremonies.take_and_remove(ceremony_id, now) {
            Ok(c) => c,
            Err(e) => return Err(e),
        };
        if c.kind != CeremonyKind::Registration {
            return Err(AuthError::InvalidCeremony);
        }
        let (credential_id, public_key) = match check_registration(&c, &self.rp, response, signature_valid) {
            Ok(parts) => parts,
            Err(e) => return Err(e),
        };
        match self.store.upsert_credential(c.user_id, credential_id, public_key, now) {
            Ok(()) => Ok(()),
            Err(_) => Err(AuthError::DuplicateCredential),
        }
    }

    /// Opens an authentication ceremony for `username`, allowing the
    /// credentials the account holds; see `login_target` for an unknown user
    /// or one without credentials. Expired ceremonies are dropped first.
    pub fn webauthn_login_start(&mut self, username: &str, now: u64) -> (r: Result<
        AuthenticationChallenge,
        AuthError,
    >)
        requires
            old(self).wf(),
        ensures
            final(self).wf(),
            final(self).store == old(self).store,
            final(self).sessions == old(self).sessions,
            final(self).rp == old(self).rp,
            final(self).cost == old(self).cost,
            final(self).conceal_unknown_users == old(self).conceal_unknown_users,
            final(self).ceremonies.ttl == old(self).ceremonies.ttl,
            ({
                let target = login_target(old(self).store, username@, old(self).conceal_unknown_users);
                let live = live_entries(old(self).ceremonies.view_entries(), now);
                &&& target matches Err(e) ==> r == Err::<AuthenticationChallenge, AuthError>(e)
                &&& target is Ok ==> r is Ok || r == Err::<AuthenticationChallenge, AuthError>(
                    AuthError::Internal,
                ) || r == Err::<AuthenticationChallenge, AuthError>(AuthError::Conflict)
                &&& r is Err ==> final(self).ceremonies.view_entries() == live
                &&& r matches Ok(ch) ==> (target matches Ok(t) && {
                    &&& ch.challenge@.len() == CHALLENGE_BYTES
                    &&& ch.allowed_credentials@.map_values(|v: Vec<u8>| v@) == t.1
                    &&& !holds_id(live, ch.ceremony_id)
                    &&& final(self).ceremonies.view_entries() == live.push(
                        (
                            ch.ceremony_id,
                            CeremonyView {
                                kind: CeremonyKind::Authentication,
                                user_id: t.0,
                                challenge: ch.challenge@,
                                allowed_credentials: t.1,
                                created_at: now,
                                expires_at: expiry_after(now, old(self).ceremonies.ttl),
                            },
                        ),
                    )
                })
            }),
    {
        self.ceremonies.sweep(now);
        if !self.conceal_unknown_users {
            let account = match self.store.find_user(username) {
                Ok(a) => a,
                Err(_) => return Err(AuthError::UnknownUser),
            };
            let credentials = self.store.list_credentials(account.id);
            if credentials.len() == 0 {
                return Err(AuthError::NoCredentials);
            }
        }
        let challenge = match random_bytes(CHALLENGE_BYTES) {
            Some(c) => c,
            None => return Err(AuthError::Internal),
        };
        let ceremony_id = match fresh_id() {
            Some(id) => id,
            None => return Err(AuthError::Internal),
        };
        self.begin_authentication(username, ceremony_id, challenge, now)
    }

    /// Opens an authentication ceremony for `username` under `ceremony_id`
    /// with server challenge `challenge`, for the account and credentials that
    /// `login_target` gives; an id already open is a conflict.
    pub fn begin_authentication(&mut self, username: &str, ceremony_id: u128, challenge: Vec<u8>, now: u64) -> (r:
        Result<AuthenticationChallenge, AuthError>)
        requires
            old(self).wf(),
        ensures
            final(self).wf(),
            final(self).store == old(self).store,
            final(self).sessions == old(self).sessions,
            final(self).rp == old(self).rp,
            final(self).cost == old(self).cost,
            final(self).conceal_unknown_users == old(self).conceal_unknown_users,
            final(self).ceremonies.ttl == old(self).ceremonies.ttl,
            ({
                let target = login_target(old(self).store, username@, old(self).conceal_unknown_users);
                let entries = old(self).ceremonies.view_entries();
                &&& target matches Err(e) ==> r == Err::<AuthenticationChallenge, AuthError>(e)
                &&& target is Ok && holds_id(entries, ceremony_id) ==> r == Err::<
                    AuthenticationChallenge,
                    AuthError,
                >(AuthError::Conflict)
                &&& target is Ok && !holds_id(entries, ceremony_id) ==> r is Ok
                &&& r is Err ==> final(self).ceremonies.view_entries() == entries
                &&& r matches Ok(ch) ==> (target matches Ok(t) && {
                    &&& ch.ceremony_id == ceremony_id
                    &&& ch.challenge@ == challenge@
                    &&& ch.allowed_credentials@.map_values(|v: Vec<u8>| v@) == t.1
                    &&& final(self).ceremonies.view_entries() == entries.push(
                        (
                            ceremony_id,
                            CeremonyView {
                                kind: CeremonyKind::Authentication,
                                user_id: t.0,
                                challenge: challenge@,
                                allowed_credentials: t.1,
                                created_at: now,
                                expires_at: expiry_after(now, old(self).ceremonies.ttl),
                            },
                        ),
                    )
                })
            }),
    {
        let mut user_id: u64 = NO_ACCOUNT;
        let mut allowed: Vec<Vec<u8>> = Vec::new();
        let mut handed_allowed: Vec<Vec<u8>> = Vec::new();
        assert(allowed@.map_values(|v: Vec<u8>| v@) =~= Seq::<Seq<u8>>::empty());
        assert(handed_allowed@.map_values(|v: Vec<u8>| v@) =~= Seq::<Seq<u8>>::empty());
        match self.store.find_user(username) {
            Ok(account) => {
                proof {
                    lemma_account_id(self.store, account);
                }
                let credentials = self.store.list_credentials(account.id);
                assert(credentials@.map_values(|c: Credential| c@.credential_id) =~= credentials@.map_values(
                    |c: Credential| c@,
                ).map_values(|c: CredentialView| c.credential_id));
                if credentials.len() == 0 {
                    if !self.conceal_unknown_users {
                        return Err(AuthError::NoCredentials);
                    }
                } else {
                    user_id = account.id;
                    allowed = credential_ids(&credentials);
                    handed_allowed = credential_ids(&credentials);
                }
            },
            Err(_) => {
                if !self.conceal_unknown_users {
                    return Err(AuthError::UnknownUser);
                }
            },
        }
        let handed = copy_bytes(&challenge);
        match self.ceremonies.insert(ceremony_id, CeremonyKind::Authentication, user_id, challenge, allowed, now) {
            Ok(()) => {},
            Err(e) => return Err(e),
        }
        Ok(AuthenticationChallenge { ceremony_id, challenge: handed, allowed_credentials: handed_allowed })
    }

    /// Finishes authentication ceremony `ceremony_id` and opens a session for
    /// its account. The ceremony is consumed; the assertion is checked against
    /// it, its signature verified under the stored public key of the asserted
    /// credential; the credential's counter must advance, else the attempt is
    /// reported as a replay.
    pub fn webauthn_login_finish(
        &mut self,
        ceremony_id: u128,
        response: &AssertionResponse,
        now: u64,
    ) -> (r: Result<Session, AuthError>)
        requires
            old(self).wf(),
        ensures
            final(self).wf(),
            final(self).store.users == old(self).store.users,
            final(self).store.next_user_id == old(self).store.next_user_id,
            final(self).rp == old(self).rp,
            final(self).cost == old(self).cost,
            final(self).conceal_unknown_users == old(self).conceal_unknown_users,
            final(self).ceremonies.ttl == old(self).ceremonies.ttl,
            final(self).sessions.ttl == old(self).sessions.ttl,
            ({
                let step = login_finish_step(
                    old(self).ceremonies.view_entries(),
                    old(self).store.credential_views(),
                    old(self).rp,
                    ceremony_id,
                    *response,
                    assertion_signature_valid(old(self).store.credential_views(), *response),
                    now,
                );
                &&& final(self).ceremonies.view_entries() == step.1
                &&& final(self).store.credential_views() == step.2
                &&& step.0 matches Err(e) ==> r == Err::<Session, AuthError>(e)
                &&& step.0 is Ok ==> r is Ok || r == Err::<Session, AuthError>(AuthError::Internal) || r
                    == Err::<Session, AuthError>(AuthError::Conflict)
                &&& r is Err ==> final(self).sessions.view_sessions() == old(self).sessions.view_sessions()
                &&& r matches Ok(s) ==> (step.0 matches Ok(owner) && s.token@.len() == TOKEN_BYTES && (
                    Ok::<SessionView, AuthError>(s@),
                    final(self).sessions.view_sessions(),
                ) == issue_step(old(self).sessions.view_sessions(), owner, s.token@, now, old(self).sessions.ttl))
            }),
    {
        let signature_valid = match self.store.find_credential(&response.credential_id) {
            Ok(credential) => verify_signature(
                &credential.public_key,
                &response.authenticator_data,
                &response.client_data_json,
                &response.signature,
            ),
            Err(_) => false,
        };
        self.finish_authentication(ceremony_id, response, signature_valid, now)
    }

    /// Finishes authentication ceremony `ceremony_id` as `webauthn_login_finish`
    /// does, given whether the assertion's signature verified under the stored
    /// public key of the asserted credential.
    pub fn finish_authentication(
        &mut self,
        ceremony_id: u128,
        response: &AssertionResponse,
        signature_valid: bool,
        now: u64,
    ) -> (r: Result<Session, AuthError>)
        requires
            old(self).wf(),
        ensures
            final(self).wf(),
            final(self).store.users == old(self).store.users,
            final(self).store.next_user_id == old(self).store.next_user_id,
            final(self).rp == old(self).rp,
            final(self).cost == old(self).cost,
            final(self).conceal_unknown_users == old(self).conceal_unknown_users,
            final(self).ceremonies.ttl == old(self).ceremonies.ttl,
            final(self).sessions.ttl == old(self).sessions.ttl,
            ({
                let step = login_finish_step(
                    old(self).ceremonies.view_entries(),
                    old(self).store.credential_views(),
                    old(self).rp,
                    ceremony_id,
                    *response,
                    signature_valid,
                    now,
                );
                &&& final(self).ceremonies.view_entries() == step.1
                &&& final(self).store.credential_views() == step.2
                &&& step.0 matches Err(e) ==> r == Err::<Session, AuthError>(e)
                &&& step.0 is Ok ==> r is Ok || r == Err::<Session, AuthError>(AuthError::Internal) || r
                    == Err::<Session, AuthError>(AuthError::Conflict)
                &&& r is Err ==> final(self).sessions.view_sessions() == old(self).sessions.view_sessions()
                &&& r matches Ok(s) ==> (step.0 matches Ok(owner) && s.token@.len() == TOKEN_BYTES && (
                    Ok::<SessionView, AuthError>(s@),
                    final(self).sessions.view_sessions(),
                ) == issue_step(old(self).sessions.view_sessions(), owner, s.token@, now, old(self).sessions.ttl))
            }),
    {
        let c = match self.ceremonies.take_and_remove(ceremony_id, now) {
            Ok(c) => c,
            Err(e) => return Err(e),
        };
        if c.kind != CeremonyKind::Authentication {
            return Err(AuthError::InvalidCeremony);
        }
        let counter = match check_assertion(&c, &self.rp, response, signature_valid) {
            Ok(n) => n,
            Err(e) => return Err(e),
        };
        match self.store.update_signature_counter(&response.credential_id, counter) {
            Ok(()) => {},
            Err(AuthError::StaleCounter) => return Err(AuthError::ReplayDetected),
            Err(_) => return Err(AuthError::UnknownCredential),
        }
        self.sessions.issue(c.user_id, now)
    }

    /// The username of the account whose live session `token` names, for the
    /// proxy to pass on. An unknown, revoked or expired token is refused; an
    /// expired one is dropped.
    pub fn auth(&mut self, token: &Vec<u8>, now: u64) -> (r: Result<String, AuthError>)
        requires
            old(self).wf(),
        ensures
            final(self).wf(),
            final(self).store == old(self).store,
            final(self).ceremonies == old(self).ceremonies,
            final(self).rp == old(self).rp,
            final(self).cost == old(self).cost,
            final(self).conceal_unknown_users == old(self).conceal_unknown_users,
            final(self).sessions.ttl == old(self).sessions.ttl,
            ({
                let step = validate_step(old(self).sessions.view_sessions(), token@, now);
                &&& final(self).sessions.view_sessions() == step.1
                &&& step.0 matches Err(e) ==> r == Err::<String, AuthError>(e)
                &&& step.0 matches Ok(owner) ==> (r is Ok <==> old(self).store.has_user_id(owner))
                &&& (step.0 is Ok && r is Err) ==> r == Err::<String, AuthError>(AuthError::InvalidToken)
                &&& r matches Ok(name) ==> (step.0 matches Ok(owner) && exists|i: int|
                    0 <= i < old(self).store.users@.len() && #[trigger] old(self).store.users@[i].id == owner
                        && old(self).store.users@[i].username@ == name@)
            }),
    {
        let owner = match self.sessions.validate(token, now) {
            Ok(o) => o,
            Err(e) => return Err(e),
        };
        match self.store.find_user_by_id(owner) {
            Ok(account) => Ok(account.username),
            Err(_) => Err(AuthError::InvalidToken),
        }
    }

    /// Whether an account is registered as `username`.
    #[allow(non_snake_case)]
    pub fn isUserInDatabase(&self, username: &str) -> (r: bool)
        requires
            self.wf(),
        ensures
            r == self.store.has_username(username@),
    {
        self.store.find_user(username).is_ok()
    }

    /// The check behind the proxy: the request's session token, if it carries
    /// one, is checked as `auth` does, and only a live session lets it through,
    /// naming its user. A request without a token is refused.
    pub fn authenticate_header(&mut self, token: Option<&Vec<u8>>, now: u64) -> (r: Result<String, AuthError>)
        requires
            old(self).wf(),
        ensures
            final(self).wf(),
            final(self).store == old(self).store,
            final(self).ceremonies == old(self).ceremonies,
            final(self).rp == old(self).rp,
            final(self).cost == old(self).cost,
            final(self).conceal_unknown_users == old(self).conceal_unknown_users,
            final(self).sessions.ttl == old(self).sessions.ttl,
            token is None ==> r == Err::<String, AuthError>(AuthError::InvalidToken) && final(self).sessions
                == old(self).sessions,
            token matches Some(t) ==> ({
                let step = validate_step(old(self).sessions.view_sessions(), t@, now);
                &&& final(self).sessions.view_sessions() == step.1
                &&& step.0 matches Err(e) ==> r == Err::<String, AuthError>(e)
                &&& step.0 matches Ok(owner) ==> (r is Ok <==> old(self).store.has_user_id(owner))
                &&& (step.0 is Ok && r is Err) ==> r == Err::<String, AuthError>(AuthError::InvalidToken)
                &&& r matches Ok(name) ==> (step.0 matches Ok(owner) && exists|i: int|
                    0 <= i < old(self).store.users@.len() && #[trigger] old(self).store.users@[i].id == owner
                        && old(self).store.users@[i].username@ == name@)
            }),
    {
        match token {
            None => Err(AuthError::InvalidToken),
            Some(t) => self.auth(t, now),
        }
    }

    /// Ends the session under `token`, if there is one.
    pub fn revoke_session(&mut self, token: &Vec<u8>)
        requires
            old(self).wf(),
        ensures
            final(self).wf(),
            final(self).store == old(self).store,
            final(self).ceremonies == old(self).ceremonies,
            final(self).rp == old(self).rp,
            final(self).cost == old(self).cost,
            final(self).conceal_unknown_users == old(self).conceal_unknown_users,
            final(self).sessions.ttl == old(self).sessions.ttl,
            final(self).sessions.view_sessions() == revoke_step(old(self).sessions.view_sessions(), token@),
    {
        self.sessions.revoke(token);
    }
}

/// The ids of `creds`, in their order.
fn credential_ids(creds: &Vec<Credential>) -> (r: Vec<Vec<u8>>)
    ensures
        r@.map_values(|v: Vec<u8>| v@) == creds@.map_values(|c: Credential| c@.credential_id),
{
    let mut out: Vec<Vec<u8>> = Vec::new();
    let mut i: usize = 0;
    while i < creds.len()
        invariant
            i <= creds@.len(),
            out@.map_values(|v: Vec<u8>| v@) == creds@.subrange(0, i as int).map_values(
                |c: Credential| c@.credential_id,
            ),
        decreases creds@.len() - i,
    {
        let ghost before = out@;
        let id = copy_bytes(&creds[i].credential_id);
        out.push(id);
        assert(out@.map_values(|v: Vec<u8>| v@) =~= before.map_values(|v: Vec<u8>| v@).push(id@));
        assert(creds@.subrange(0, i + 1).map_values(|c: Credential| c@.credential_id) =~= creds@.subrange(
            0,
            i as int,
        ).map_values(|c: Credential| c@.credential_id).push(creds@[i as int]@.credential_id));
        i = i + 1;
    }
    assert(creds@.subrange(0, i as int) =~= creds@);
    out
}

proof fn lemma_account_id(store: CredentialStore, u: UserAccount)
    requires
        store.wf(),
        store.users@.contains(u),
    ensures
        store.has_username(u.username@),
        account_id(store, u.username@) == u.id,
{
    let k = choose|k: int| 0 <= k < store.users@.len() && store.users@[k] == u;
    assert(store.users@[k].username@ == u.username@);
    let j = choose|i: int| 0 <= i < store.users@.len() && #[trigger] store.users@[i].username@ == u.username@;
    assert(j == k);
}

} // verus!
