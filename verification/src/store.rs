//! Refresh store: opaque refresh-token records, their binding to a user and
//! issuance time, one-time-use rotation, and revocation. Presenting an
//! already-rotated token is the replay-detection signal and tears down the
//! whole rotation chain, which every record names through its `session`: the
//! identifier of the record the chain started from.

use vstd::prelude::*;
use crate::email::same_email;
use crate::AuthError;

verus! {

/// One server-side refresh record. Never deleted eagerly: a revoked record
/// is retained so that presenting it again can be recognised as replay.
pub struct RefreshRecord {
    /// Random, unguessable identifier; the opaque value handed to the caller.
    pub token_id: u128,
    /// The email the record is bound to.
    pub email: String,
    /// Epoch second of creation.
    pub issued_at: u64,
    /// Set by rotation or logout; never cleared.
    pub revoked: bool,
    /// The record minted when this one was rotated, if any.
    pub replaced_by: Option<u128>,
    /// The identifier of the record at the root of this rotation chain.
    pub session: u128,
}

/// `r`, revoked.
pub open spec fn with_revoked(r: RefreshRecord) -> RefreshRecord {
    RefreshRecord {
        token_id: r.token_id,
        email: r.email,
        issued_at: r.issued_at,
        revoked: true,
        replaced_by: r.replaced_by,
        session: r.session,
    }
}

/// `r`, revoked and pointing at its successor `new_id`.
pub open spec fn with_rotated(r: RefreshRecord, new_id: u128) -> RefreshRecord {
    RefreshRecord {
        token_id: r.token_id,
        email: r.email,
        issued_at: r.issued_at,
        revoked: true,
        replaced_by: Some(new_id),
        session: r.session,
    }
}

/// Some record carries this identifier.
pub open spec fn spec_has(s: Seq<RefreshRecord>, id: u128) -> bool {
    exists|i: int| 0 <= i < s.len() && (#[trigger] s[i]).token_id == id
}

/// The index of the record carrying this identifier.
pub open spec fn spec_idx(s: Seq<RefreshRecord>, id: u128) -> int {
    choose|i: int| 0 <= i < s.len() && (#[trigger] s[i]).token_id == id
}

/// The record carrying this identifier.
pub open spec fn record_for(s: Seq<RefreshRecord>, id: u128) -> RefreshRecord {
    s[spec_idx(s, id)]
}

/// `s` with the record carrying `id` (if any) revoked.
pub open spec fn spec_revoke_id(s: Seq<RefreshRecord>, id: u128) -> Seq<RefreshRecord> {
    Seq::new(s.len(), |i: int| if s[i].token_id == id { with_revoked(s[i]) } else { s[i] })
}

/// `s` with every record of the rotation chain rooted at `sess` revoked.
pub open spec fn spec_revoke_session(s: Seq<RefreshRecord>, sess: u128) -> Seq<RefreshRecord> {
    Seq::new(s.len(), |i: int| if s[i].session == sess { with_revoked(s[i]) } else { s[i] })
}

/// `s` with every record bound to `email` (up to ASCII case) revoked.
pub open spec fn spec_revoke_email(s: Seq<RefreshRecord>, email: Seq<char>) -> Seq<RefreshRecord> {
    Seq::new(s.len(), |i: int| if same_email(s[i].email@, email) { with_revoked(s[i]) } else { s[i] })
}

/// `s` with the record carrying `id` revoked and pointing at `new_id`.
pub open spec fn spec_mark_rotated(s: Seq<RefreshRecord>, id: u128, new_id: u128) -> Seq<
    RefreshRecord,
> {
    Seq::new(s.len(), |i: int| if s[i].token_id == id { with_rotated(s[i], new_id) } else { s[i] })
}

/// `post` is `pre` with `rec` stored under its identifier: in place of the
/// record already carrying it, or appended.
pub open spec fn spec_upserted(
    pre: Seq<RefreshRecord>,
    post: Seq<RefreshRecord>,
    rec: RefreshRecord,
) -> bool {
    if spec_has(pre, rec.token_id) {
        post == pre.update(spec_idx(pre, rec.token_id), rec)
    } else {
        post == pre.push(rec)
    }
}

/// `post` is `pre` with a fresh, unrevoked record stored: identifier `id`,
/// bound to `email`, issued at `now`, rooting its own chain.
pub open spec fn spec_issued(
    pre: Seq<RefreshRecord>,
    post: Seq<RefreshRecord>,
    id: u128,
    email: Seq<char>,
    now: u64,
) -> bool {
    exists|rec: RefreshRecord|
        #[trigger] spec_upserted(pre, post, rec) && rec.token_id == id && rec.email@ == email
            && rec.issued_at == now && !rec.revoked && rec.replaced_by is None && rec.session == id
}

/// `post` is `pre` with the record carrying `id` rotated into a fresh record
/// carrying `new_id`: the old one revoked and pointing at its successor, the
/// new one unrevoked, bound to the same email and the same chain.
pub open spec fn spec_rotated(
    pre: Seq<RefreshRecord>,
    post: Seq<RefreshRecord>,
    id: u128,
    new_id: u128,
    now: u64,
) -> bool {
    exists|rec: RefreshRecord|
        #[trigger] spec_upserted(spec_mark_rotated(pre, id, new_id), post, rec) && rec.token_id
            == new_id && rec.email@ == record_for(pre, id).email@ && rec.issued_at == now
            && !rec.revoked && rec.replaced_by is None && rec.session == record_for(pre, id).session
}

/// Relies on uuid::Uuid::new_v4: a freshly generated version-4 UUID, taken as
/// its 128-bit value. Nothing is assumed about which value comes back.
#[verifier::external_body]
fn fresh_token_id() -> (r: u128) {
    uuid::Uuid::new_v4().as_u128()
}

/// In a store with pairwise-distinct identifiers, any index whose record
/// carries `id` is the index the lookup specs name.
pub proof fn lemma_unique_id(s: Seq<RefreshRecord>, id: u128, i: int)
    requires
        forall|p: int, q: int|
            0 <= p < q < s.len() ==> (#[trigger] s[p]).token_id != (#[trigger] s[q]).token_id,
        0 <= i < s.len(),
        s[i].token_id == id,
    ensures
        spec_has(s, id),
        spec_idx(s, id) == i,
{
    assert(spec_has(s, id));
}

/// The server-side store of refresh records: the one shared mutable resource
/// of the core.
pub struct RefreshStore {
    store: Vec<RefreshRecord>,
}

impl RefreshStore {
    /// The records, in insertion order.
    pub closed spec fn records(self) -> Seq<RefreshRecord> {
        self.store@
    }

    /// Store invariant: identifiers are pairwise distinct.
    pub open spec fn wf(self) -> bool {
        forall|p: int, q: int|
            0 <= p < q < self.records().len() ==> (#[trigger] self.records()[p]).token_id != (
            #[trigger] self.records()[q]).token_id
    }

    /// An empty store.
    pub fn new() -> (r: RefreshStore)
        ensures
            r.records().len() == 0,
            r.wf(),
    {
        RefreshStore { store: Vec::new() }
    }

    /// The index of the record carrying `id`, if any.
    fn find_idx(&self, id: u128) -> (r: Option<usize>)
        ensures
            r matches Some(i) ==> i < self.records().len() && self.records()[i as int].token_id
                == id,
            r is None ==> !spec_has(self.records(), id),
    {
        let n = self.store.len();
        let mut i: usize = 0;
        while i < n
            invariant
                n == self.records().len(),
                i <= n,
                forall|j: int| 0 <= j < i ==> (#[trigger] self.records()[j]).token_id != id,
            decreases n - i,
        {
            if self.store[i].token_id == id {
                return Some(i);
            }
            i = i + 1;
        }
        None
    }

    /// Whether the record carrying `id` is revoked, and the email it is
    /// bound to, if there is such a record.
    pub fn status_of(&self, id: u128) -> (r: Option<(bool, String)>)
        requires
            self.wf(),
        ensures
            r is Some <==> spec_has(self.records(), id),
            r matches Some(s) ==> s.0 == record_for(self.records(), id).revoked && s.1@
                == record_for(self.records(), id).email@,
    {
        match self.find_idx(id) {
            Some(i) => {
                proof {
                    lemma_unique_id(self.records(), id, i as int);
                }
                Some((self.store[i].revoked, self.store[i].email.clone()))
            },
            None => None,
        }
    }

    /// Store `rec` under its identifier, replacing any record already
    /// carrying it.
    fn upsert(&mut self, rec: RefreshRecord)
        requires
            old(self).wf(),
        ensures
            final(self).wf(),
            spec_upserted(old(self).records(), final(self).records(), rec),
    {
        match self.find_idx(rec.token_id) {
            Some(i) => {
                proof {
                    lemma_unique_id(self.records(), rec.token_id, i as int);
                }
                self.store[i] = rec;
            },
            None => {
                self.store.push(rec);
            },
        }
    }

    /// Create a new record for `email`: unrevoked, with no successor, at the
    /// root of its own chain, under a freshly drawn identifier (which is
    /// returned).
    pub fn issue(&mut self, email: String, now: u64) -> (r: u128)
        requires
            old(self).wf(),
        ensures
            final(self).wf(),
            spec_issued(old(self).records(), final(self).records(), r, email@, now),
    {
        let id = fresh_token_id();
        let rec = RefreshRecord {
            token_id: id,
            email,
            issued_at: now,
            revoked: false,
            replaced_by: None,
            session: id,
        };
        let ghost g = rec;
        self.upsert(rec);
        proof {
            assert(spec_upserted(old(self).records(), self.records(), g));
        }
        id
    }

    /// Revoke the whole rotation chain rooted at `sess`.
    pub fn revoke_session(&mut self, sess: u128)
        requires
            old(self).wf(),
        ensures
            final(self).wf(),
            final(self).records() == spec_revoke_session(old(self).records(), sess),
    {
        let n = self.store.len();
        let mut i: usize = 0;
        while i < n
            invariant
                n == self.records().len() == old(self).records().len(),
                i <= n,
                forall|j: int|
                    0 <= j < n ==> #[trigger] self.records()[j] == (if j < i {
                        spec_revoke_session(old(self).records(), sess)[j]
                    } else {
                        old(self).records()[j]
                    }),
            decreases n - i,
        {
            if self.store[i].session == sess {
                self.store[i].revoked = true;
            }
            i = i + 1;
        }
        proof {
            assert(self.records() =~= spec_revoke_session(old(self).records(), sess));
        }
    }

    /// Idempotently revoke the record carrying `id`, if there is one; its
    /// successor pointer, and every other record, are left as they were.
    /// Used for logout, so an unknown or already-revoked identifier is not
    /// an error.
    pub fn revoke(&mut self, id: u128)
        requires
            old(self).wf(),
        ensures
            final(self).wf(),
            final(self).records() == spec_revoke_id(old(self).records(), id),
    {
        let n = self.store.len();
        let mut i: usize = 0;
        while i < n
            invariant
                n == self.records().len() == old(self).records().len(),
                i <= n,
                forall|j: int|
                    0 <= j < n ==> #[trigger] self.records()[j] == (if j < i {
                        spec_revoke_id(old(self).records(), id)[j]
                    } else {
                        old(self).records()[j]
                    }),
            decreases n - i,
        {
            if self.store[i].token_id == id {
                self.store[i].revoked = true;
            }
            i = i + 1;
        }
        proof {
            assert(self.records() =~= spec_revoke_id(old(self).records(), id));
        }
    }

    /// Revoke every record bound to `email` (up to ASCII case): password
    /// reset invalidates all active sessions of that identity.
    pub fn revoke_all_for_email(&mut self, email: &String)
        requires
            old(self).wf(),
        ensures
            final(self).wf(),
            final(self).records() == spec_revoke_email(old(self).records(), email@),
    {
        let n = self.store.len();
        let mut i: usize = 0;
        while i < n
            invariant
                n == self.records().len() == old(self).records().len(),
                i <= n,
                forall|j: int|
                    0 <= j < n ==> #[trigger] self.records()[j] == (if j < i {
                        spec_revoke_email(old(self).records(), email@)[j]
                    } else {
                        old(self).records()[j]
                    }),
            decreases n - i,
        {
            if crate::email::emails_match(&self.store[i].email, email) {
                self.store[i].revoked = true;
            }
            i = i + 1;
        }
        proof {
            assert(self.records() =~= spec_revoke_email(old(self).records(), email@));
        }
    }

    /// Rotate the record carrying `token_id`: atomically revoke it, point it
    /// at a fresh unrevoked successor bound to the same email and chain, and
    /// return the successor's identifier. An unknown identifier is rejected
    /// without a state change; an already-revoked one is the replay signal
    /// and revokes the whole chain it belongs to.
    pub fn rotate(&mut self, token_id: u128, now: u64) -> (r: Result<u128, AuthError>)
        requires
            old(self).wf(),
        ensures
            final(self).wf(),
            !spec_has(old(self).records(), token_id) ==> r == Result::<u128, AuthError>::Err(
                AuthError::NotFound,
            ) && final(self).records() == old(self).records(),
            spec_has(old(self).records(), token_id) && record_for(old(self).records(), token_id).revoked
                ==> r == Result::<u128, AuthError>::Err(AuthError::AlreadyRevoked)
                && final(self).records() == spec_revoke_session(
                old(self).records(),
                record_for(old(self).records(), token_id).session,
            ),
            spec_has(old(self).records(), token_id) && !record_for(
                old(self).records(),
                token_id,
            ).revoked ==> (r matches Ok(nid) && spec_rotated(
                old(self).records(),
                final(self).records(),
                token_id,
                nid,
                now,
            )),
    {
        let idx = match self.find_idx(token_id) {
            Some(i) => i,
            None => {
                return Err(AuthError::NotFound);
            },
        };
        proof {
            lemma_unique_id(self.records(), token_id, idx as int);
        }
        if self.store[idx].revoked {
            let sess = self.store[idx].session;
            self.revoke_session(sess);
            return Err(AuthError::AlreadyRevoked);
        }
        let new_id = fresh_token_id();
        self.store[idx].revoked = true;
        self.store[idx].replaced_by = Some(new_id);
        proof {
            assert(self.records() =~= spec_mark_rotated(old(self).records(), token_id, new_id));
        }
        let email = self.store[idx].email.clone();
        let sess = self.store[idx].session;
        let rec = RefreshRecord {
            token_id: new_id,
            email,
            issued_at: now,
            revoked: false,
            replaced_by: None,
            session: sess,
        };
        let ghost g = rec;
        self.upsert(rec);
        proof {
            assert(spec_upserted(spec_mark_rotated(old(self).records(), token_id, new_id), self.records(), g));
        }
        Ok(new_id)
    }
}

/// Revoking a record twice is the same as revoking it once: the second
/// revocation is a no-op.
pub proof fn lemma_revoke_idempotent(s: Seq<RefreshRecord>, id: u128)
    ensures
        spec_revoke_id(spec_revoke_id(s, id), id) == spec_revoke_id(s, id),
{
    assert(spec_revoke_id(spec_revoke_id(s, id), id) =~= spec_revoke_id(s, id));
}

/// Replay teardown reaches every record of the chain: once the chain rooted
/// at the session of record `i` is revoked, any record `j` of that same
/// chain — in particular the successor a rotation minted — is revoked.
pub proof fn lemma_replay_revokes_chain(s: Seq<RefreshRecord>, i: int, j: int)
    requires
        0 <= i < s.len(),
        0 <= j < s.len(),
        s[j].session == s[i].session,
    ensures
        spec_revoke_session(s, s[i].session)[j].revoked,
{
}

/// Password reset reaches every session of the identity: once the records
/// bound to `email` are revoked, any record `j` bound to it (up to ASCII
/// case) is revoked.
pub proof fn lemma_reset_revokes_email(s: Seq<RefreshRecord>, email: Seq<char>, j: int)
    requires
        0 <= j < s.len(),
        same_email(s[j].email@, email),
    ensures
        spec_revoke_email(s, email)[j].revoked,
{
}

} // verus!
