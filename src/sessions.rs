use vstd::prelude::*;

use crate::bytes::{bytes_equal, copy_bytes};
use crate::challenges::expiry_after;
use crate::error::AuthError;
use crate::random::random_bytes;

verus! {

/// Length of a session token, in bytes.
pub const TOKEN_BYTES: usize = 16;

/// A proof of a successful login, held by the client as an opaque token.
pub struct Session {
    pub token: Vec<u8>,
    pub owner: u64,
    pub issued_at: u64,
    pub expires_at: u64,
}

/// What a session holds, as plain values.
pub struct SessionView {
    pub token: Seq<u8>,
    pub owner: u64,
    pub issued_at: u64,
    pub expires_at: u64,
}

impl View for Session {
    type V = SessionView;

    open spec fn view(&self) -> SessionView {
        SessionView {
            token: self.token@,
            owner: self.owner,
            issued_at: self.issued_at,
            expires_at: self.expires_at,
        }
    }
}

/// Whether some session in `sessions` has the token `token`.
pub open spec fn holds_token(sessions: Seq<SessionView>, token: Seq<u8>) -> bool {
    exists|i: int| 0 <= i < sessions.len() && #[trigger] sessions[i].token == token
}

/// The position of the session with token `token`.
pub open spec fn token_position(sessions: Seq<SessionView>, token: Seq<u8>) -> int {
    choose|i: int| 0 <= i < sessions.len() && #[trigger] sessions[i].token == token
}

/// Tokens are unique among `sessions`.
pub open spec fn unique_tokens(sessions: Seq<SessionView>) -> bool {
    forall|i: int, j: int|
        0 <= i < sessions.len() && 0 <= j < sessions.len() && i != j ==> #[trigger] sessions[i].token
            != #[trigger] sessions[j].token
}

/// The outcome of issuing `token` to `owner` at `now` with lifetime `ttl`.
pub open spec fn issue_step(sessions: Seq<SessionView>, owner: u64, token: Seq<u8>, now: u64, ttl: u64) -> (
    Result<SessionView, AuthError>,
    Seq<SessionView>,
) {
    if holds_token(sessions, token) {
        (Err(AuthError::Conflict), sessions)
    } else {
        let s = SessionView { token, owner, issued_at: now, expires_at: expiry_after(now, ttl) };
        (Ok(s), sessions.push(s))
    }
}

/// The outcome of presenting `token` at `now`: its owner while it is live; an
/// expired session is refused and dropped.
pub open spec fn validate_step(sessions: Seq<SessionView>, token: Seq<u8>, now: u64) -> (
    Result<u64, AuthError>,
    Seq<SessionView>,
) {
    if !holds_token(sessions, token) {
        (Err(AuthError::InvalidToken), sessions)
    } else {
        let i = token_position(sessions, token);
        if now > sessions[i].expires_at {
            (Err(AuthError::ExpiredToken), sessions.remove(i))
        } else {
            (Ok(sessions[i].owner), sessions)
        }
    }
}

/// The sessions left after revoking `token`.
pub open spec fn revoke_step(sessions: Seq<SessionView>, token: Seq<u8>) -> Seq<SessionView> {
    if holds_token(sessions, token) {
        sessions.remove(token_position(sessions, token))
    } else {
        sessions
    }
}

proof fn lemma_remove_keeps_unique(sessions: Seq<SessionView>, i: int)
    requires
        unique_tokens(sessions),
        0 <= i < sessions.len(),
    ensures
        unique_tokens(sessions.remove(i)),
        !holds_token(sessions.remove(i), sessions[i].token),
{
    let rest = sessions.remove(i);
    assert forall|a: int, b: int|
        0 <= a < rest.len() && 0 <= b < rest.len() && a != b implies #[trigger] rest[a].token
        != #[trigger] rest[b].token by {
        let a0 = if a < i { a } else { a + 1 };
        let b0 = if b < i { b } else { b + 1 };
        assert(rest[a] == sessions[a0] && rest[b] == sessions[b0]);
    }
    assert forall|k: int| 0 <= k < rest.len() implies #[trigger] rest[k].token != sessions[i].token by {
        let k0 = if k < i { k } else { k + 1 };
        assert(rest[k] == sessions[k0]);
    }
}

/// A session is honoured up to its expiry and not after: a token issued at `t`
/// with lifetime `ttl` names its owner one second before `t + ttl`, and is
/// refused as expired one second after it.
pub proof fn lemma_session_lifetime(
    sessions: Seq<SessionView>,
    owner: u64,
    token: Seq<u8>,
    t: u64,
    ttl: u64,
)
    requires
        unique_tokens(sessions),
        !holds_token(sessions, token),
        1 <= ttl,
        t + ttl + 1 <= u64::MAX,
    ensures
        validate_step(issue_step(sessions, owner, token, t, ttl).1, token, (t + ttl - 1) as u64).0 == Ok::<
            u64,
            AuthError,
        >(owner),
        validate_step(issue_step(sessions, owner, token, t, ttl).1, token, (t + ttl + 1) as u64).0
            == Err::<u64, AuthError>(AuthError::ExpiredToken),
{
    let after = issue_step(sessions, owner, token, t, ttl).1;
    let n = sessions.len() as int;
    assert(after[n].token == token);
    assert(holds_token(after, token));
    let k = token_position(after, token);
    if k != n {
        assert(after[k] == sessions[k]);
    }
}

/// Live sessions, each under a unique token, with the lifetime given to new ones.
pub struct SessionGate {
    pub sessions: Vec<Session>,
    pub ttl: u64,
}

impl SessionGate {
    pub open spec fn view_sessions(&self) -> Seq<SessionView> {
        self.sessions@.map_values(|s: Session| s@)
    }

    pub open spec fn wf(&self) -> bool {
        unique_tokens(self.view_sessions())
    }

    /// An empty gate whose sessions live `ttl` seconds.
    pub fn new(ttl: u64) -> (r: Self)
        ensures
            r.wf(),
            r.view_sessions().len() == 0,
            r.ttl == ttl,
    {
        let r = SessionGate { sessions: Vec::new(), ttl };
        assert(r.view_sessions() =~= Seq::<SessionView>::empty());
        r
    }

    fn position(&self, token: &Vec<u8>) -> (r: Option<usize>)
        ensures
            r matches Some(i) ==> i < self.sessions@.len() && self.view_sessions()[i as int].token == token@,
            r is None ==> !holds_token(self.view_sessions(), token@),
    {
        let mut i: usize = 0;
        while i < self.sessions.len()
            invariant
                i <= self.sessions@.len(),
                forall|j: int| 0 <= j < i ==> #[trigger] self.view_sessions()[j].token != token@,
            decreases self.sessions@.len() - i,
        {
            if bytes_equal(&self.sessions[i].token, token) {
                return Some(i);
            }
            i = i + 1;
        }
        None
    }

    /// Opens a session for `owner` under `token` at `now`; a token already in
    /// use is a conflict.
    pub fn issue_with_token(&mut self, owner: u64, token: Vec<u8>, now: u64) -> (r: Result<Session, AuthError>)
        requires
            old(self).wf(),
        ensures
            final(self).wf(),
            final(self).ttl == old(self).ttl,
            (session_result_view(r), final(self).view_sessions()) == issue_step(
                old(self).view_sessions(),
                owner,
                token@,
                now,
                old(self).ttl,
            ),
    {
        if self.position(&token).is_some() {
            return Err(AuthError::Conflict);
        }
        let expires_at = if now > u64::MAX - self.ttl {
            u64::MAX
        } else {
            now + self.ttl
        };
        let ghost before = self.view_sessions();
        let session = Session { token, owner, issued_at: now, expires_at };
        let handed = copy_session(&session);
        self.sessions.push(session);
        assert(self.view_sessions() =~= before.push(handed@));
        assert forall|a: int, b: int|
            0 <= a < self.view_sessions().len() && 0 <= b < self.view_sessions().len() && a != b implies #[trigger] self.view_sessions()[a].token
            != #[trigger] self.view_sessions()[b].token by {
            if a < before.len() && b < before.len() {
                assert(self.view_sessions()[a] == before[a] && self.view_sessions()[b] == before[b]);
            } else if a < before.len() {
                assert(self.view_sessions()[a] == before[a]);
            } else {
                assert(self.view_sessions()[b] == before[b]);
            }
        }
        Ok(handed)
    }

    /// Opens a session for `owner` at `now` under a fresh random token. It
    /// fails only when no random token could be had or it collides with a live one.
    pub fn issue(&mut self, owner: u64, now: u64) -> (r: Result<Session, AuthError>)
        requires
            old(self).wf(),
        ensures
            final(self).wf(),
            final(self).ttl == old(self).ttl,
            r is Err ==> final(self).view_sessions() == old(self).view_sessions(),
            r is Err ==> r == Err::<Session, AuthError>(AuthError::Internal) || r == Err::<
                Session,
                AuthError,
            >(AuthError::Conflict),
            r matches Ok(s) ==> {
                &&& s.token@.len() == TOKEN_BYTES
                &&& (Ok::<SessionView, AuthError>(s@), final(self).view_sessions()) == issue_step(
                    old(self).view_sessions(),
                    owner,
                    s.token@,
                    now,
                    old(self).ttl,
                )
            },
    {
        match random_bytes(TOKEN_BYTES) {
            Some(token) => self.issue_with_token(owner, token, now),
            None => Err(AuthError::Internal),
        }
    }

    /// The owner of the session under `token` at `now`. An unknown token is
    /// invalid; an expired one is refused and dropped, never honoured again.
    pub fn validate(&mut self, token: &Vec<u8>, now: u64) -> (r: Result<u64, AuthError>)
        requires
            old(self).wf(),
        ensures
            final(self).wf(),
            final(self).ttl == old(self).ttl,
            (r, final(self).view_sessions()) == validate_step(old(self).view_sessions(), token@, now),
    {
        let ghost v = self.view_sessions();
        match self.position(token) {
            None => Err(AuthError::InvalidToken),
            Some(i) => {
                proof {
                    assert(v[i as int].token == token@);
                    assert(token_position(v, token@) == i);
                }
                if now > self.sessions[i].expires_at {
                    self.sessions.remove(i);
                    assert(self.view_sessions() =~= v.remove(i as int));
                    proof {
                        lemma_remove_keeps_unique(v, i as int);
                    }
                    Err(AuthError::ExpiredToken)
                } else {
                    Ok(self.sessions[i].owner)
                }
            },
        }
    }

    /// Ends the session under `token`, if there is one.
    pub fn revoke(&mut self, token: &Vec<u8>)
        requires
            old(self).wf(),
        ensures
            final(self).wf(),
            final(self).ttl == old(self).ttl,
            final(self).view_sessions() == revoke_step(old(self).view_sessions(), token@),
    {
        let ghost v = self.view_sessions();
        if let Some(i) = self.position(token) {
            proof {
                assert(v[i as int].token == token@);
                assert(token_position(v, token@) == i);
                lemma_remove_keeps_unique(v, i as int);
            }
            self.sessions.remove(i);
            assert(self.view_sessions() =~= v.remove(i as int));
        }
    }
}

/// An issued session, or the error, as plain values.
pub open spec fn session_result_view(r: Result<Session, AuthError>) -> Result<SessionView, AuthError> {
    match r {
        Ok(s) => Ok(s@),
        Err(e) => Err(e),
    }
}

fn copy_session(s: &Session) -> (r: Session)
    ensures
        r@ == s@,
{
    Session { token: copy_bytes(&s.token), owner: s.owner, issued_at: s.issued_at, expires_at: s.expires_at }
}

} // verus!
