use vstd::prelude::*;

verus! {

/// Every way an operation of this library can fail.
#[derive(Clone, Copy, Debug, PartialEq, Eq, Structural)]
pub enum AuthError {
    /// A user, account or credential that the operation names does not exist.
    NotFound,
    /// The username, or the credential id, is already bound to another account.
    Conflict,
    /// A reported signature counter is not above the stored one.
    StaleCounter,
    /// A ceremony was asked for a user that has no account.
    UnknownUser,
    /// An authentication ceremony was asked for a user without credentials.
    NoCredentials,
    /// The ceremony id is unknown, already consumed, expired or of the other kind.
    InvalidCeremony,
    /// The signed client data names another ceremony type or another challenge.
    ChallengeMismatch,
    /// The signed client data names another origin, or the authenticator data
    /// another relying party.
    OriginMismatch,
    /// The attested credential data cannot be parsed.
    MalformedAttestation,
    /// The new credential id is already bound to another account.
    DuplicateCredential,
    /// The asserted credential is not among those the ceremony allowed.
    UnknownCredential,
    /// The assertion signature does not verify against the stored key.
    SignatureInvalid,
    /// The authenticator's counter did not advance: a cloned or replayed credential.
    ReplayDetected,
    /// The username or password is wrong.
    BadCredentials,
    /// The session token was never issued, or was revoked.
    InvalidToken,
    /// The session token is past its expiry.
    ExpiredToken,
    /// The input is malformed.
    Validation,
    /// A random value or a hash could not be produced.
    Internal,
}

/// The classes of failure that callers handle alike.
#[derive(Clone, Copy, Debug, PartialEq, Eq, Structural)]
pub enum ErrorKind {
    /// Malformed input.
    Validation,
    /// An unknown user, ceremony or record.
    NotFound,
    /// A duplicate username or credential.
    Conflict,
    /// A wrong password, signature, challenge, origin or token.
    AuthenticationFailure,
    /// A stale signature counter: a security event of its own.
    ReplayDetected,
    /// An unexpected failure of a random source or of hashing.
    Internal,
}

/// The class of each error.
pub open spec fn kind_of(e: AuthError) -> ErrorKind {
    match e {
        AuthError::Validation | AuthError::MalformedAttestation => ErrorKind::Validation,
        AuthError::NotFound | AuthError::UnknownUser | AuthError::NoCredentials
        | AuthError::InvalidCeremony => ErrorKind::NotFound,
        AuthError::Conflict | AuthError::DuplicateCredential => ErrorKind::Conflict,
        AuthError::ChallengeMismatch | AuthError::OriginMismatch | AuthError::UnknownCredential
        | AuthError::SignatureInvalid | AuthError::BadCredentials | AuthError::InvalidToken
        | AuthError::ExpiredToken => ErrorKind::AuthenticationFailure,
        AuthError::StaleCounter | AuthError::ReplayDetected => ErrorKind::ReplayDetected,
        AuthError::Internal => ErrorKind::Internal,
    }
}

/// The HTTP status that answers each class of failure.
pub open spec fn status_of(k: ErrorKind) -> u16 {
    match k {
        ErrorKind::Validation => 400,
        ErrorKind::NotFound => 404,
        ErrorKind::Conflict => 409,
        ErrorKind::AuthenticationFailure => 401,
        ErrorKind::ReplayDetected => 409,
        ErrorKind::Internal => 500,
    }
}

impl AuthError {
    /// The class of this error.
    pub fn kind(&self) -> (r: ErrorKind)
        ensures
            r == kind_of(*self),
    {
        match self {
            AuthError::Validation | AuthError::MalformedAttestation => ErrorKind::Validation,
            AuthError::NotFound | AuthError::UnknownUser | AuthError::NoCredentials
            | AuthError::InvalidCeremony => ErrorKind::NotFound,
            AuthError::Conflict | AuthError::DuplicateCredential => ErrorKind::Conflict,
            AuthError::ChallengeMismatch | AuthError::OriginMismatch | AuthError::UnknownCredential
            | AuthError::SignatureInvalid | AuthError::BadCredentials | AuthError::InvalidToken
            | AuthError::ExpiredToken => ErrorKind::AuthenticationFailure,
            AuthError::StaleCounter | AuthError::ReplayDetected => ErrorKind::ReplayDetected,
            AuthError::Internal => ErrorKind::Internal,
        }
    }

    /// The HTTP status that answers this error.
    pub fn status_code(&self) -> (r: u16)
        ensures
            r == status_of(kind_of(*self)),
    {
        match self.kind() {
            ErrorKind::Validation => 400,
            ErrorKind::NotFound => 404,
            ErrorKind::Conflict => 409,
            ErrorKind::AuthenticationFailure => 401,
            ErrorKind::ReplayDetected => 409,
            ErrorKind::Internal => 500,
        }
    }

    /// A short message for the client, free of any secret.
    pub fn message(&self) -> (r: &'static str)
        ensures
            r@ == message_of(*self),
    {
        match self {
            AuthError::NotFound => "not found",
            AuthError::Conflict => "already exists",
            AuthError::StaleCounter => "stale signature counter",
            AuthError::UnknownUser => "unknown user",
            AuthError::NoCredentials => "no credentials enrolled",
            AuthError::InvalidCeremony => "invalid or expired ceremony",
            AuthError::ChallengeMismatch => "challenge mismatch",
            AuthError::OriginMismatch => "origin mismatch",
            AuthError::MalformedAttestation => "malformed attestation",
            AuthError::DuplicateCredential => "credential already registered",
            AuthError::UnknownCredential => "unknown credential",
            AuthError::SignatureInvalid => "invalid signature",
            AuthError::ReplayDetected => "replay detected",
            AuthError::BadCredentials => "invalid username or password",
            AuthError::InvalidToken => "invalid session",
            AuthError::ExpiredToken => "expired session",
            AuthError::Validation => "malformed input",
            AuthError::Internal => "internal error",
        }
    }

    /// The HTTP status that answers a failed password registration: a taken
    /// username is a bad request, anything else an internal failure.
    pub fn password_registration_status(&self) -> (r: u16)
        ensures
            r == password_registration_status_of(*self),
    {
        match self {
            AuthError::Internal => 500,
            _ => 400,
        }
    }

    /// The HTTP status that answers a failed registration finish: every
    /// verification failure is a bad request; only an internal failure is not.
    pub fn registration_finish_status(&self) -> (r: u16)
        ensures
            r == registration_finish_status_of(*self),
    {
        match self {
            AuthError::Internal => 500,
            _ => 400,
        }
    }

    /// The HTTP status that answers a failed authentication finish: a replay
    /// is a conflict, an internal failure is itself, and every other failure
    /// is unauthorized.
    pub fn authentication_finish_status(&self) -> (r: u16)
        ensures
            r == authentication_finish_status_of(*self),
    {
        match self {
            AuthError::ReplayDetected => 409,
            AuthError::Internal | AuthError::Conflict => 500,
            _ => 401,
        }
    }
}

/// The message that answers each error.
pub open spec fn message_of(e: AuthError) -> Seq<char> {
    match e {
        AuthError::NotFound => "not found"@,
        AuthError::Conflict => "already exists"@,
        AuthError::StaleCounter => "stale signature counter"@,
        AuthError::UnknownUser => "unknown user"@,
        AuthError::NoCredentials => "no credentials enrolled"@,
        AuthError::InvalidCeremony => "invalid or expired ceremony"@,
        AuthError::ChallengeMismatch => "challenge mismatch"@,
        AuthError::OriginMismatch => "origin mismatch"@,
        AuthError::MalformedAttestation => "malformed attestation"@,
        AuthError::DuplicateCredential => "credential already registered"@,
        AuthError::UnknownCredential => "unknown credential"@,
        AuthError::SignatureInvalid => "invalid signature"@,
        AuthError::ReplayDetected => "replay detected"@,
        AuthError::BadCredentials => "invalid username or password"@,
        AuthError::InvalidToken => "invalid session"@,
        AuthError::ExpiredToken => "expired session"@,
        AuthError::Validation => "malformed input"@,
        AuthError::Internal => "internal error"@,
    }
}

/// The status of a failed password registration.
pub open spec fn password_registration_status_of(e: AuthError) -> u16 {
    if e == AuthError::Internal {
        500
    } else {
        400
    }
}

/// The status of a failed registration finish.
pub open spec fn registration_finish_status_of(e: AuthError) -> u16 {
    if e == AuthError::Internal {
        500
    } else {
        400
    }
}

/// The status of a failed authentication finish.
pub open spec fn authentication_finish_status_of(e: AuthError) -> u16 {
    if e == AuthError::ReplayDetected {
        409
    } else if e == AuthError::Internal || e == AuthError::Conflict {
        500
    } else {
        401
    }
}

} // verus!
