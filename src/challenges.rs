use vstd::prelude::*;

use crate::error::AuthError;
use crate::random::fresh_id;

verus! {

/// Which ceremony a challenge belongs to.
#[derive(Clone, Copy, Debug, PartialEq, Eq, Structural)]
pub enum CeremonyKind {
    Registration,
    Authentication,
}

/// The state of one outstanding challenge/response exchange.
pub struct Ceremony {
    pub kind: CeremonyKind,
    pub user_id: u64,
    pub challenge: Vec<u8>,
    pub allowed_credentials: Vec<Vec<u8>>,
    pub created_at: u64,
    pub expires_at: u64,
}

/// What a ceremony holds, as plain values.
pub struct CeremonyView {
    pub kind: CeremonyKind,
    pub user_id: u64,
    pub challenge: Seq<u8>,
    pub allowed_credentials: Seq<Seq<u8>>,
    pub created_at: u64,
    pub expires_at: u64,
}

impl View for Ceremony {
    type V = CeremonyView;

    open spec fn view(&self) -> CeremonyView {
        CeremonyView {
            kind: self.kind,
            user_id: self.user_id,
            challenge: self.challenge@,
            allowed_credentials: self.allowed_credentials@.map_values(|v: Vec<u8>| v@),
            created_at: self.created_at,
            expires_at: self.expires_at,
        }
    }
}

/// A registry entry: a ceremony under its id.
pub struct PendingCeremony {
    pub id: u128,
    pub ceremony: Ceremony,
}

/// A taken ceremony, or the error, as plain values.
pub open spec fn result_view(r: Result<Ceremony, AuthError>) -> Result<CeremonyView, AuthError> {
    match r {
        Ok(c) => Ok(c@),
        Err(e) => Err(e),
    }
}

/// The entries of a registry, as plain values.
pub open spec fn entry_views(entries: Seq<PendingCeremony>) -> Seq<(u128, CeremonyView)> {
    entries.map_values(|e: PendingCeremony| (e.id, e.ceremony@))
}

/// Whether some entry has the id `id`.
pub open spec fn holds_id(entries: Seq<(u128, CeremonyView)>, id: u128) -> bool {
    exists|i: int| 0 <= i < entries.len() && #[trigger] entries[i].0 == id
}

/// The position of the entry with id `id`.
pub open spec fn id_position(entries: Seq<(u128, CeremonyView)>, id: u128) -> int {
    choose|i: int| 0 <= i < entries.len() && #[trigger] entries[i].0 == id
}

/// Ids are unique among `entries`.
pub open spec fn unique_ids(entries: Seq<(u128, CeremonyView)>) -> bool {
    forall|i: int, j: int|
        0 <= i < entries.len() && 0 <= j < entries.len() && i != j ==> #[trigger] entries[i].0
            != #[trigger] entries[j].0
}

/// A ceremony is expired once the time is past its expiry.
pub open spec fn is_expired(c: CeremonyView, now: u64) -> bool {
    now > c.expires_at
}

/// `now + ttl`, held at the largest time when it would not fit.
pub open spec fn expiry_after(now: u64, ttl: u64) -> u64 {
    if now + ttl > u64::MAX {
        u64::MAX
    } else {
        (now + ttl) as u64
    }
}

/// The outcome of taking ceremony `id` at time `now`: the entry leaves the
/// registry in every case, and is handed out only if it was there and not expired.
pub open spec fn take_step(entries: Seq<(u128, CeremonyView)>, id: u128, now: u64) -> (
    Result<CeremonyView, AuthError>,
    Seq<(u128, CeremonyView)>,
) {
    if !holds_id(entries, id) {
        (Err(AuthError::InvalidCeremony), entries)
    } else {
        let i = id_position(entries, id);
        let rest = entries.remove(i);
        if is_expired(entries[i].1, now) {
            (Err(AuthError::InvalidCeremony), rest)
        } else {
            (Ok(entries[i].1), rest)
        }
    }
}

/// The entries of `entries` that are not expired at `now`, in their order.
pub open spec fn live_entries(entries: Seq<(u128, CeremonyView)>, now: u64) -> Seq<(u128, CeremonyView)>
    decreases entries.len(),
{
    if entries.len() == 0 {
        Seq::empty()
    } else {
        let rest = live_entries(entries.drop_last(), now);
        if is_expired(entries.last().1, now) {
            rest
        } else {
            rest.push(entries.last())
        }
    }
}

/// Every entry kept by a sweep was in the registry before it, so ids stay unique.
proof fn lemma_live_entries_keep_ids(entries: Seq<(u128, CeremonyView)>, now: u64)
    requires
        unique_ids(entries),
    ensures
        unique_ids(live_entries(entries, now)),
        forall|j: int|
            0 <= j < live_entries(entries, now).len() ==> entries.contains(
                #[trigger] live_entries(entries, now)[j],
            ),
    decreases entries.len(),
{
    if entries.len() > 0 {
        let init = entries.drop_last();
        assert(unique_ids(init)) by {
            assert forall|i: int, j: int|
                0 <= i < init.len() && 0 <= j < init.len() && i != j implies #[trigger] init[i].0
                != #[trigger] init[j].0 by {
                assert(init[i] == entries[i] && init[j] == entries[j]);
            }
        }
        lemma_live_entries_keep_ids(init, now);
        let rest = live_entries(init, now);
        assert forall|j: int| 0 <= j < rest.len() implies #[trigger] rest[j].0 != entries.last().0 by {
            assert(init.contains(rest[j]));
            let m = choose|m: int| 0 <= m < init.len() && init[m] == rest[j];
            assert(entries[m] == init[m]);
        }
        assert forall|j: int| 0 <= j < rest.len() implies entries.contains(#[trigger] rest[j]) by {
            assert(init.contains(rest[j]));
            let m = choose|m: int| 0 <= m < init.len() && init[m] == rest[j];
            assert(entries[m] == init[m]);
        }
        assert(entries[entries.len() - 1] == entries.last());
    }
}

/// A ceremony id is good for one take at most: whatever the first take of `id`
/// returned, a second take of it is refused as an invalid ceremony.
pub proof fn lemma_ceremony_taken_once(
    entries: Seq<(u128, CeremonyView)>,
    id: u128,
    first: u64,
    second: u64,
)
    requires
        unique_ids(entries),
    ensures
        take_step(take_step(entries, id, first).1, id, second).0 == Err::<CeremonyView, AuthError>(
            AuthError::InvalidCeremony,
        ),
{
    if holds_id(entries, id) {
        let i = id_position(entries, id);
        let rest = entries.remove(i);
        assert forall|k: int| 0 <= k < rest.len() implies #[trigger] rest[k].0 != id by {
            if k < i {
                assert(rest[k] == entries[k]);
            } else {
                assert(rest[k] == entries[k + 1]);
            }
        }
    }
}

/// Outstanding ceremonies, each under a unique id, with the lifetime given to new ones.
pub struct ChallengeRegistry {
    pub entries: Vec<PendingCeremony>,
    pub ttl: u64,
}

impl ChallengeRegistry {
    pub open spec fn view_entries(&self) -> Seq<(u128, CeremonyView)> {
        entry_views(self.entries@)
    }

    pub open spec fn wf(&self) -> bool {
        unique_ids(self.view_entries())
    }

    /// An empty registry whose ceremonies live `ttl` seconds.
    pub fn new(ttl: u64) -> (r: Self)
        ensures
            r.wf(),
            r.view_entries().len() == 0,
            r.ttl == ttl,
    {
        let r = ChallengeRegistry { entries: Vec::new(), ttl };
        assert(r.view_entries() =~= Seq::<(u128, CeremonyView)>::empty());
        r
    }

    fn position(&self, id: u128) -> (r: Option<usize>)
        ensures
            r matches Some(i) ==> i < self.entries@.len() && self.view_entries()[i as int].0 == id,
            r is None ==> !holds_id(self.view_entries(), id),
    {
        let mut i: usize = 0;
        while i < self.entries.len()
            invariant
                i <= self.entries@.len(),
                forall|j: int| 0 <= j < i ==> #[trigger] self.view_entries()[j].0 != id,
            decreases self.entries@.len() - i,
        {
            if self.entries[i].id == id {
                return Some(i);
            }
            i = i + 1;
        }
        None
    }

    /// Stores a ceremony under `id`, created at `now` and expiring `ttl` seconds
    /// later; an id already in use is a conflict.
    pub fn insert(
        &mut self,
        id: u128,
        kind: CeremonyKind,
        user_id: u64,
        challenge: Vec<u8>,
        allowed_credentials: Vec<Vec<u8>>,
        now: u64,
    ) -> (r: Result<(), AuthError>)
        requires
            old(self).wf(),
        ensures
            final(self).wf(),
            final(self).ttl == old(self).ttl,
            r is Err <==> holds_id(old(self).view_entries(), id),
            r is Err ==> r == Err::<(), AuthError>(AuthError::Conflict) && final(self).view_entries()
                == old(self).view_entries(),
            r is Ok ==> final(self).view_entries() == old(self).view_entries().push(
                (
                    id,
                    CeremonyView {
                        kind,
                        user_id,
                        challenge: challenge@,
                        allowed_credentials: allowed_credentials@.map_values(|v: Vec<u8>| v@),
                        created_at: now,
                        expires_at: expiry_after(now, old(self).ttl),
                    },
                ),
            ),
    {
        if self.position(id).is_some() {
            return Err(AuthError::Conflict);
        }
        let expires_at = if now > u64::MAX - self.ttl {
            u64::MAX
        } else {
            now + self.ttl
        };
        let ghost before = self.view_entries();
        let ceremony = Ceremony { kind, user_id, challenge, allowed_credentials, created_at: now, expires_at };
        self.entries.push(PendingCeremony { id, ceremony });
        assert(self.view_entries() =~= before.push((id, self.entries@.last().ceremony@)));
        Ok(())
    }

    /// Stores a ceremony under a fresh random id and returns the id. It fails
    /// only when the random source fails or the drawn id is already in use.
    pub fn put(
        &mut self,
        kind: CeremonyKind,
        user_id: u64,
        challenge: Vec<u8>,
        allowed_credentials: Vec<Vec<u8>>,
        now: u64,
    ) -> (r: Result<u128, AuthError>)
        requires
            old(self).wf(),
        ensures
            final(self).wf(),
            final(self).ttl == old(self).ttl,
            r is Err ==> final(self).view_entries() == old(self).view_entries(),
            r is Err ==> r == Err::<u128, AuthError>(AuthError::Internal) || (r == Err::<u128, AuthError>(
                AuthError::Conflict,
            ) && old(self).view_entries().len() > 0),
            r matches Ok(id) ==> {
                &&& !holds_id(old(self).view_entries(), id)
                &&& final(self).view_entries() == old(self).view_entries().push(
                    (
                        id,
                        CeremonyView {
                            kind,
                            user_id,
                            challenge: challenge@,
                            allowed_credentials: allowed_credentials@.map_values(|v: Vec<u8>| v@),
                            created_at: now,
                            expires_at: expiry_after(now, old(self).ttl),
                        },
                    ),
                )
            },
    {
        let id = match fresh_id() {
            Some(id) => id,
            None => return Err(AuthError::Internal),
        };
        match self.insert(id, kind, user_id, challenge, allowed_credentials, now) {
            Ok(()) => Ok(id),
            Err(e) => Err(e),
        }
    }

    /// Takes ceremony `id` out of the registry: it is removed whether or not it
    /// has expired, and handed out only if it has not.
    pub fn take_and_remove(&mut self, id: u128, now: u64) -> (r: Result<Ceremony, AuthError>)
        requires
            old(self).wf(),
        ensures
            final(self).wf(),
            final(self).ttl == old(self).ttl,
            !holds_id(final(self).view_entries(), id),
            (result_view(r), final(self).view_entries()) == take_step(
                old(self).view_entries(),
                id,
                now,
            ),
    {
        let ghost v = self.view_entries();
        match self.position(id) {
            None => Err(AuthError::InvalidCeremony),
            Some(i) => {
                proof {
                    assert(v[i as int].0 == id);
                    assert(id_position(v, id) == i);
                }
                let entry = self.entries.remove(i);
                assert(self.view_entries() =~= v.remove(i as int));
                assert forall|k: int| 0 <= k < self.view_entries().len() implies #[trigger] self.view_entries()[k].0 != id by {
                    if k < i {
                        assert(self.view_entries()[k] == v[k]);
                    } else {
                        assert(self.view_entries()[k] == v[k + 1]);
                    }
                }
                if now > entry.ceremony.expires_at {
                    Err(AuthError::InvalidCeremony)
                } else {
                    Ok(entry.ceremony)
                }
            },
        }
    }

    /// Drops every ceremony that has expired at `now`.
    pub fn sweep(&mut self, now: u64)
        requires
            old(self).wf(),
        ensures
            final(self).wf(),
            final(self).ttl == old(self).ttl,
            final(self).view_entries() == live_entries(old(self).view_entries(), now),
    {
        let ghost v = self.view_entries();
        let mut i: usize = 0;
        let ghost mut k: int = 0;
        while i < self.entries.len()
            invariant
                0 <= k <= v.len(),
                i <= self.entries@.len(),
                live_entries(v.subrange(0, k), now).len() == i,
                self.view_entries() == live_entries(v.subrange(0, k), now) + v.subrange(k, v.len() as int),
                self.ttl == old(self).ttl,
            decreases self.entries@.len() - i,
        {
            let ghost cur = self.view_entries();
            assert(cur[i as int] == v[k]);
            assert(v.subrange(0, k + 1).drop_last() =~= v.subrange(0, k));
            assert(v.subrange(0, k + 1).last() == v[k]);
            if now > self.entries[i].ceremony.expires_at {
                self.entries.remove(i);
                assert(self.view_entries() =~= cur.remove(i as int));
                assert(self.view_entries() =~= live_entries(v.subrange(0, k + 1), now) + v.subrange(
                    k + 1,
                    v.len() as int,
                ));
            } else {
                i = i + 1;
                assert(self.view_entries() =~= live_entries(v.subrange(0, k + 1), now) + v.subrange(
                    k + 1,
                    v.len() as int,
                ));
            }
            proof {
                k = k + 1;
            }
        }
        assert(k == v.len());
        assert(v.subrange(0, k) =~= v);
        assert(self.view_entries() =~= live_entries(v, now));
        proof {
            lemma_live_entries_keep_ids(v, now);
        }
    }
}

} // verus!
