use vstd::prelude::*;

use crate::bytes::{bytes_equal, copy_bytes};
use crate::error::AuthError;

verus! {

/// A registered account.
pub struct UserAccount {
    pub id: u64,
    pub username: String,
    pub password_hash: Option<String>,
}

/// A public-key credential bound to one account.
pub struct Credential {
    pub credential_id: Vec<u8>,
    pub owner: u64,
    pub public_key: Vec<u8>,
    pub signature_counter: u32,
    pub created_at: u64,
}

/// What a credential record holds, as plain values.
pub struct CredentialView {
    pub credential_id: Seq<u8>,
    pub owner: u64,
    pub public_key: Seq<u8>,
    pub signature_counter: u32,
    pub created_at: u64,
}

impl View for Credential {
    type V = CredentialView;

    open spec fn view(&self) -> CredentialView {
        CredentialView {
            credential_id: self.credential_id@,
            owner: self.owner,
            public_key: self.public_key@,
            signature_counter: self.signature_counter,
            created_at: self.created_at,
        }
    }
}

/// The credentials of `owner` among `creds`, in their order.
pub open spec fn owned_by(creds: Seq<CredentialView>, owner: u64) -> Seq<CredentialView>
    decreases creds.len(),
{
    if creds.len() == 0 {
        Seq::empty()
    } else {
        let rest = owned_by(creds.drop_last(), owner);
        if creds.last().owner == owner {
            rest.push(creds.last())
        } else {
            rest
        }
    }
}

/// Whether some record in `creds` has the credential id `id`.
pub open spec fn holds_credential(creds: Seq<CredentialView>, id: Seq<u8>) -> bool {
    exists|i: int| 0 <= i < creds.len() && #[trigger] creds[i].credential_id == id
}

/// The position of the record with credential id `id` in `creds`.
pub open spec fn credential_position(creds: Seq<CredentialView>, id: Seq<u8>) -> int {
    choose|i: int| 0 <= i < creds.len() && #[trigger] creds[i].credential_id == id
}

/// The outcome of reporting signature counter `n` for credential `id`: the
/// credential must exist and `n` must exceed the stored counter, which then
/// becomes `n`; on failure the records stay as they were.
pub open spec fn counter_step(creds: Seq<CredentialView>, id: Seq<u8>, n: u32) -> (
    Result<(), AuthError>,
    Seq<CredentialView>,
) {
    if !holds_credential(creds, id) {
        (Err(AuthError::NotFound), creds)
    } else {
        let i = credential_position(creds, id);
        if n <= creds[i].signature_counter {
            (Err(AuthError::StaleCounter), creds)
        } else {
            (Ok(()), creds.update(i, CredentialView { signature_counter: n, ..creds[i] }))
        }
    }
}

/// The outcome of binding `id` with key `key` to `owner` at time `now`: a new
/// record with counter 0, a new key for a record the owner already has, or a
/// conflict when another account holds the id.
pub open spec fn upsert_step(
    creds: Seq<CredentialView>,
    owner: u64,
    id: Seq<u8>,
    key: Seq<u8>,
    now: u64,
) -> (Result<(), AuthError>, Seq<CredentialView>) {
    if !holds_credential(creds, id) {
        (
            Ok(()),
            creds.push(
                CredentialView {
                    credential_id: id,
                    owner,
                    public_key: key,
                    signature_counter: 0,
                    created_at: now,
                },
            ),
        )
    } else {
        let i = credential_position(creds, id);
        if creds[i].owner != owner {
            (Err(AuthError::Conflict), creds)
        } else {
            (Ok(()), creds.update(i, CredentialView { public_key: key, ..creds[i] }))
        }
    }
}

/// Credential ids are unique among `creds`.
pub open spec fn unique_credential_ids(creds: Seq<CredentialView>) -> bool {
    forall|i: int, j: int|
        0 <= i < creds.len() && 0 <= j < creds.len() && i != j ==> #[trigger] creds[i].credential_id
            != #[trigger] creds[j].credential_id
}

/// Once a counter report of `a` has been accepted for a credential, a later
/// report of `b` for it is accepted exactly when `b > a`, and is otherwise
/// rejected as stale.
pub proof fn lemma_counter_strictly_increases(
    creds: Seq<CredentialView>,
    id: Seq<u8>,
    a: u32,
    b: u32,
)
    requires
        unique_credential_ids(creds),
        counter_step(creds, id, a).0 is Ok,
    ensures
        unique_credential_ids(counter_step(creds, id, a).1),
        counter_step(counter_step(creds, id, a).1, id, b).0 == (if b > a {
            Ok::<(), AuthError>(())
        } else {
            Err(AuthError::StaleCounter)
        }),
{
    let i = credential_position(creds, id);
    let after = counter_step(creds, id, a).1;
    assert(after[i].credential_id == id);
    assert(holds_credential(after, id));
    let k = credential_position(after, id);
    assert(k == i);
}

/// Durable account and credential records.
pub struct CredentialStore {
    pub users: Vec<UserAccount>,
    pub credentials: Vec<Credential>,
    pub next_user_id: u64,
}

/// Once an account has been added under a username, that username is taken:
/// a second registration of it is refused as a conflict.
pub proof fn lemma_username_taken_after_registration(
    before: CredentialStore,
    after: CredentialStore,
    u: UserAccount,
)
    requires
        after.users@ == before.users@.push(u),
    ensures
        after.has_username(u.username@),
{
    assert(after.users@[before.users@.len() as int] == u);
}

impl CredentialStore {
    /// Usernames, user ids and credential ids are each unique, and every user id
    /// lies below the next one to hand out.
    pub open spec fn wf(&self) -> bool {
        &&& forall|i: int, j: int|
            0 <= i < j < self.users@.len() ==> #[trigger] self.users@[i].username@
                != #[trigger] self.users@[j].username@
        &&& forall|i: int| 0 <= i < self.users@.len() ==> #[trigger] self.users@[i].id < self.next_user_id
        &&& forall|i: int, j: int|
            0 <= i < j < self.users@.len() ==> #[trigger] self.users@[i].id != #[trigger] self.users@[j].id
        &&& unique_credential_ids(self.credential_views())
    }

    pub open spec fn has_username(&self, name: Seq<char>) -> bool {
        exists|i: int| 0 <= i < self.users@.len() && #[trigger] self.users@[i].username@ == name
    }

    pub open spec fn has_user_id(&self, id: u64) -> bool {
        exists|i: int| 0 <= i < self.users@.len() && #[trigger] self.users@[i].id == id
    }

    pub open spec fn credential_views(&self) -> Seq<CredentialView> {
        self.credentials@.map_values(|c: Credential| c@)
    }


    pub fn new() -> (r: Self)
        ensures
            r.wf(),
            r.users@.len() == 0,
            r.credentials@.len() == 0,
            r.next_user_id == 1,
    {
        CredentialStore { users: Vec::new(), credentials: Vec::new(), next_user_id: 1 }
    }

    fn username_index(&self, name: &str) -> (r: Option<usize>)
        ensures
            r matches Some(i) ==> i < self.users@.len() && self.users@[i as int].username@ == name@,
            r is None ==> !self.has_username(name@),
    {
        let wanted: String = name.to_owned();
        let mut i: usize = 0;
        while i < self.users.len()
            invariant
                wanted@ == name@,
                i <= self.users@.len(),
                forall|j: int| 0 <= j < i ==> #[trigger] self.users@[j].username@ != name@,
            decreases self.users@.len() - i,
        {
            if self.users[i].username == wanted {
                return Some(i);
            }
            i = i + 1;
        }
        None
    }

    fn user_id_index(&self, id: u64) -> (r: Option<usize>)
        ensures
            r matches Some(i) ==> i < self.users@.len() && self.users@[i as int].id == id,
            r is None ==> !self.has_user_id(id),
    {
        let mut i: usize = 0;
        while i < self.users.len()
            invariant
                i <= self.users@.len(),
                forall|j: int| 0 <= j < i ==> #[trigger] self.users@[j].id != id,
            decreases self.users@.len() - i,
        {
            if self.users[i].id == id {
                return Some(i);
            }
            i = i + 1;
        }
        None
    }

    fn credential_index(&self, id: &Vec<u8>) -> (r: Option<usize>)
        ensures
            r matches Some(i) ==> i < self.credentials@.len() && self.credentials@[i as int].credential_id@ == id@,
            r is None ==> !holds_credential(self.credential_views(), id@),
    {
        let mut i: usize = 0;
        while i < self.credentials.len()
            invariant
                i <= self.credentials@.len(),
                forall|j: int| 0 <= j < i ==> #[trigger] self.credentials@[j].credential_id@ != id@,
                self.credential_views().len() == self.credentials@.len(),
                forall|j: int| 0 <= j < self.credentials@.len() ==> #[trigger] self.credential_views()[j] == self.credentials@[j]@,
            decreases self.credentials@.len() - i,
        {
            if bytes_equal(&self.credentials[i].credential_id, id) {
                return Some(i);
            }
            i = i + 1;
        }
        None
    }

    /// The account registered under `username`.
    pub fn find_user(&self, username: &str) -> (r: Result<UserAccount, AuthError>)
        requires
            self.wf(),
        ensures
            r is Ok <==> self.has_username(username@),
            r is Err ==> r == Err::<UserAccount, AuthError>(AuthError::NotFound),
            r matches Ok(u) ==> u.username@ == username@ && self.users@.contains(u),
    {
        match self.username_index(username) {
            Some(i) => Ok(copy_account(&self.users[i])),
            None => Err(AuthError::NotFound),
        }
    }

    /// The account with id `user_id`.
    pub fn find_user_by_id(&self, user_id: u64) -> (r: Result<UserAccount, AuthError>)
        requires
            self.wf(),
        ensures
            r is Ok <==> self.has_user_id(user_id),
            r is Err ==> r == Err::<UserAccount, AuthError>(AuthError::NotFound),
            r matches Ok(u) ==> u.id == user_id && self.users@.contains(u),
    {
        match self.user_id_index(user_id) {
            Some(i) => Ok(copy_account(&self.users[i])),
            None => Err(AuthError::NotFound),
        }
    }

    /// Registers a new account; the username must not be taken.
    pub fn create_user(&mut self, username: &str, password_hash: Option<String>) -> (r: Result<
        UserAccount,
        AuthError,
    >)
        requires
            old(self).wf(),
        ensures
            final(self).wf(),
            old(self).has_username(username@) ==> r == Err::<UserAccount, AuthError>(AuthError::Conflict),
            !old(self).has_username(username@) && old(self).next_user_id == u64::MAX ==> r == Err::<
                UserAccount,
                AuthError,
            >(AuthError::Internal),
            !old(self).has_username(username@) && old(self).next_user_id < u64::MAX ==> r is Ok,
            r is Err ==> *final(self) == *old(self),
            r matches Ok(u) ==> {
                &&& u.id == old(self).next_user_id
                &&& u.username@ == username@
                &&& u.password_hash == password_hash
                &&& final(self).users@ == old(self).users@.push(u)
                &&& final(self).credentials == old(self).credentials
            },
    {
        if self.username_index(username).is_some() {
            return Err(AuthError::Conflict);
        }
        if self.next_user_id == u64::MAX {
            return Err(AuthError::Internal);
        }
        let account = UserAccount {
            id: self.next_user_id,
            username: username.to_owned(),
            password_hash,
        };
        let result = copy_account(&account);
        self.users.push(account);
        self.next_user_id = self.next_user_id + 1;
        assert(self.users@.last() == result);
        assert forall|i: int, j: int| 0 <= i < j < self.users@.len() implies #[trigger] self.users@[i].username@
            != #[trigger] self.users@[j].username@ by {
            if j == self.users@.len() - 1 {
                assert(old(self).users@[i] == self.users@[i]);
            }
        }
        Ok(result)
    }

    /// Replaces the password hash of the account with id `user_id`.
    pub fn set_password_hash(&mut self, user_id: u64, hash: String) -> (r: Result<(), AuthError>)
        requires
            old(self).wf(),
        ensures
            final(self).wf(),
            r is Ok <==> old(self).has_user_id(user_id),
            r is Err ==> r == Err::<(), AuthError>(AuthError::NotFound) && *final(self) == *old(self),
            r is Ok ==> {
                &&& final(self).credentials == old(self).credentials
                &&& final(self).next_user_id == old(self).next_user_id
                &&& final(self).users@.len() == old(self).users@.len()
                &&& forall|i: int|
                    0 <= i < old(self).users@.len() ==> #[trigger] final(self).users@[i] == (if old(
                        self,
                    ).users@[i].id == user_id {
                        UserAccount { password_hash: Some(hash), ..old(self).users@[i] }
                    } else {
                        old(self).users@[i]
                    })
            },
    {
        match self.user_id_index(user_id) {
            None => Err(AuthError::NotFound),
            Some(i) => {
                let mut account = self.users.remove(i);
                account.password_hash = Some(hash);
                self.users.insert(i, account);
                Ok(())
            },
        }
    }

    /// The credentials owned by `user_id`, in the order they were bound.
    pub fn list_credentials(&self, user_id: u64) -> (r: Vec<Credential>)
        ensures
            r@.map_values(|c: Credential| c@) == owned_by(self.credential_views(), user_id),
    {
        let mut out: Vec<Credential> = Vec::new();
        let mut i: usize = 0;
        while i < self.credentials.len()
            invariant
                i <= self.credentials@.len(),
                out@.map_values(|c: Credential| c@) == owned_by(
                    self.credential_views().subrange(0, i as int),
                    user_id,
                ),
            decreases self.credentials@.len() - i,
        {
            let ghost before = out@;
            assert(self.credential_views().subrange(0, i + 1).drop_last() =~= self.credential_views().subrange(
                0,
                i as int,
            ));
            if self.credentials[i].owner == user_id {
                out.push(copy_credential(&self.credentials[i]));
                assert(out@.map_values(|c: Credential| c@) =~= before.map_values(|c: Credential| c@).push(
                    self.credentials@[i as int]@,
                ));
            }
            i = i + 1;
        }
        assert(self.credential_views().subrange(0, self.credentials@.len() as int) =~= self.credential_views());
        out
    }

    /// The credential record with id `credential_id`.
    pub fn find_credential(&self, credential_id: &Vec<u8>) -> (r: Result<Credential, AuthError>)
        requires
            self.wf(),
        ensures
            r is Ok <==> holds_credential(self.credential_views(), credential_id@),
            r is Err ==> r == Err::<Credential, AuthError>(AuthError::NotFound),
            r matches Ok(c) ==> c@ == self.credential_views()[credential_position(
                self.credential_views(),
                credential_id@,
            )],
    {
        match self.credential_index(credential_id) {
            Some(i) => {
                proof {
                    let v = self.credential_views();
                    assert(v[i as int].credential_id == credential_id@);
                    let k = credential_position(v, credential_id@);
                    assert(k == i);
                }
                Ok(copy_credential(&self.credentials[i]))
            },
            None => Err(AuthError::NotFound),
        }
    }

    /// Binds credential `credential_id` with `public_key` to `user_id`. A credential
    /// already bound to the same account gets the new key; one bound to another
    /// account is a conflict.
    pub fn upsert_credential(
        &mut self,
        user_id: u64,
        credential_id: Vec<u8>,
        public_key: Vec<u8>,
        now: u64,
    ) -> (r: Result<(), AuthError>)
        requires
            old(self).wf(),
        ensures
            final(self).wf(),
            final(self).users == old(self).users,
            final(self).next_user_id == old(self).next_user_id,
            (r, final(self).credential_views()) == upsert_step(
                old(self).credential_views(),
                user_id,
                credential_id@,
                public_key@,
                now,
            ),
    {
        match self.credential_index(&credential_id) {
            Some(i) => {
                let ghost v = self.credential_views();
                proof {
                    assert(v[i as int].credential_id == credential_id@);
                    let k = credential_position(v, credential_id@);
                    assert(k == i);
                }
                if self.credentials[i].owner != user_id {
                    return Err(AuthError::Conflict);
                }
                let mut c = self.credentials.remove(i);
                c.public_key = public_key;
                self.credentials.insert(i, c);
                assert(self.credential_views() =~= v.update(
                    i as int,
                    CredentialView { public_key: public_key@, ..v[i as int] },
                ));
                Ok(())
            },
            None => {
                let ghost v = self.credential_views();
                let c = Credential {
                    credential_id,
                    owner: user_id,
                    public_key,
                    signature_counter: 0,
                    created_at: now,
                };
                self.credentials.push(c);
                assert(self.credential_views() =~= v.push(c@));
                Ok(())
            },
        }
    }

    /// Records signature counter `new_count` for `credential_id`; it must exceed
    /// the stored counter.
    pub fn update_signature_counter(&mut self, credential_id: &Vec<u8>, new_count: u32) -> (r: Result<
        (),
        AuthError,
    >)
        requires
            old(self).wf(),
        ensures
            final(self).wf(),
            final(self).users == old(self).users,
            final(self).next_user_id == old(self).next_user_id,
            (r, final(self).credential_views()) == counter_step(
                old(self).credential_views(),
                credential_id@,
                new_count,
            ),
    {
        match self.credential_index(credential_id) {
            Some(i) => {
                let ghost v = self.credential_views();
                proof {
                    assert(v[i as int].credential_id == credential_id@);
                    let k = credential_position(v, credential_id@);
                    assert(k == i);
                }
                if new_count <= self.credentials[i].signature_counter {
                    return Err(AuthError::StaleCounter);
                }
                let mut c = self.credentials.remove(i);
                c.signature_counter = new_count;
                self.credentials.insert(i, c);
                assert(self.credential_views() =~= v.update(
                    i as int,
                    CredentialView { signature_counter: new_count, ..v[i as int] },
                ));
                Ok(())
            },
            None => Err(AuthError::NotFound),
        }
    }
}

/// A copy of a credential record.
fn copy_credential(c: &Credential) -> (r: Credential)
    ensures
        r@ == c@,
{
    Credential {
        credential_id: copy_bytes(&c.credential_id),
        owner: c.owner,
        public_key: copy_bytes(&c.public_key),
        signature_counter: c.signature_counter,
        created_at: c.created_at,
    }
}

/// A copy of an account record.
fn copy_account(a: &UserAccount) -> (r: UserAccount)
    ensures
        r == *a,
{
    let password_hash = match &a.password_hash {
        Some(h) => Some(h.clone()),
        None => None,
    };
    UserAccount { id: a.id, username: a.username.clone(), password_hash }
}

} // verus!
