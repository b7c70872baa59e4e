//! User store and credential verifier: identities keyed by email, unique up
//! to ASCII case, each holding the stored login secret and the epoch second
//! of its last password change (which gates single-use reset tokens).

use vstd::prelude::*;
use crate::email::same_email;
use crate::email::lower_code;
use crate::email::emails_match;
use crate::codec::Role;
use crate::AuthError;

verus! {

/// One stored identity. `password` holds the stored secret exactly as the
/// collaborator behind the store supplies it; which key-derivation scheme
/// produced it is the collaborator's choice, not part of this core.
pub struct UserEntry {
    pub email: String,
    pub password: Vec<u8>,
    pub role: Role,
    pub pwd_changed_at: u64,
}

/// A read-only snapshot of an identity, as the credential verifier hands it
/// to the session flows.
pub struct Identity {
    pub email: String,
    pub role: Role,
}

/// Compare two secrets without an early exit on the first differing byte, so
/// that the comparison's running time does not depend on where they differ.
pub fn fixed_time_eq(a: &Vec<u8>, b: &Vec<u8>) -> (r: bool)
    ensures
        r == (a@ == b@),
{
    if a.len() != b.len() {
        return false;
    }
    let n = a.len();
    let mut acc: u8 = 0;
    let mut i: usize = 0;
    while i < n
        invariant
            n == a@.len(),
            n == b@.len(),
            i <= n,
            (acc == 0) <==> (forall|j: int| 0 <= j < i ==> a@[j] == b@[j]),
        decreases n - i,
    {
        let x = a[i];
        let y = b[i];
        let d = x ^ y;
        proof {
            assert((x ^ y) == 0 <==> x == y) by (bit_vector);
            assert(((acc | d) == 0) <==> (acc == 0 && d == 0)) by (bit_vector);
        }
        acc = acc | d;
        i = i + 1;
    }
    if acc == 0 {
        proof {
            assert(a@ =~= b@);
        }
        true
    } else {
        false
    }
}

/// Two emails that both fold to a third fold to each other.
pub proof fn lemma_same_email_trans(a: Seq<char>, b: Seq<char>, c: Seq<char>)
    requires
        same_email(a, c),
        same_email(b, c),
    ensures
        same_email(a, b),
{
    assert forall|i: int| 0 <= i < a.len() implies lower_code(a[i]) == lower_code(b[i]) by {
        assert(lower_code(a[i]) == lower_code(c[i]));
        assert(lower_code(b[i]) == lower_code(c[i]));
    }
}

/// The identities, owned by the user-store collaborator; the auth core reads
/// and updates them through the contracts below.
pub struct UserStore {
    users: Vec<UserEntry>,
}

impl UserStore {
    /// The stored identities, in insertion order.
    pub closed spec fn entries(self) -> Seq<UserEntry> {
        self.users@
    }

    /// Store invariant: no two identities share an email, even up to case.
    pub open spec fn wf(self) -> bool {
        forall|i: int, j: int|
            0 <= i < j < self.entries().len() ==> !same_email(
                #[trigger] self.entries()[i].email@,
                #[trigger] self.entries()[j].email@,
            )
    }

    /// Some identity is stored under this email.
    pub open spec fn spec_has(self, email: Seq<char>) -> bool {
        exists|i: int|
            0 <= i < self.entries().len() && same_email(
                #[trigger] self.entries()[i].email@,
                email,
            )
    }

    /// The index of the identity stored under this email.
    pub open spec fn idx_of(self, email: Seq<char>) -> int {
        choose|i: int|
            0 <= i < self.entries().len() && same_email(
                #[trigger] self.entries()[i].email@,
                email,
            )
    }

    /// The identity stored under this email.
    pub open spec fn entry_for(self, email: Seq<char>) -> UserEntry {
        self.entries()[self.idx_of(email)]
    }

    /// This email and secret name a stored identity.
    pub open spec fn spec_match(self, email: Seq<char>, password: Seq<u8>) -> bool {
        self.spec_has(email) && self.entry_for(email).password@ == password
    }

    /// In a well-formed store, any index whose email matches is the index
    /// the lookup specs name.
    pub proof fn lemma_unique_match(self, email: Seq<char>, i: int)
        requires
            self.wf(),
            0 <= i < self.entries().len(),
            same_email(self.entries()[i].email@, email),
        ensures
            self.spec_has(email),
            self.idx_of(email) == i,
    {
        assert(self.spec_has(email));
        let j = self.idx_of(email);
        if j != i {
            lemma_same_email_trans(self.entries()[i].email@, self.entries()[j].email@, email);
        }
    }

    /// An empty store.
    pub fn new() -> (r: UserStore)
        ensures
            r.entries().len() == 0,
            r.wf(),
    {
        UserStore { users: Vec::new() }
    }

    /// The credential verifier: check the submitted email and secret against
    /// the store. An unknown email and a wrong secret fail with the one same
    /// error, so that a caller cannot tell the two apart.
    pub fn verify(&self, email: &String, password: &Vec<u8>) -> (r: Result<Identity, AuthError>)
        requires
            self.wf(),
        ensures
            r is Ok <==> self.spec_match(email@, password@),
            r matches Ok(id) ==> id.email@ == self.entry_for(email@).email@ && id.role
                == self.entry_for(email@).role,
            r matches Err(e) ==> e == AuthError::InvalidCredentials,
    {
        let n = self.users.len();
        let mut i: usize = 0;
        while i < n
            invariant
                self.wf(),
                n == self.entries().len(),
                i <= n,
                forall|j: int| 0 <= j < i ==> !same_email(#[trigger] self.entries()[j].email@, email@),
            decreases n - i,
        {
            if emails_match(&self.users[i].email, email) {
                proof {
                    self.lemma_unique_match(email@, i as int);
                }
                if fixed_time_eq(password, &self.users[i].password) {
                    return Ok(Identity { email: self.users[i].email.clone(), role: self.users[i].role });
                } else {
                    return Err(AuthError::InvalidCredentials);
                }
            }
            i = i + 1;
        }
        assert(!self.spec_has(email@));
        Err(AuthError::InvalidCredentials)
    }

    /// The identity bound to this email, if any, without checking a secret;
    /// the refresh flow uses it to mint claims for the bound email.
    pub fn identity_of(&self, email: &String) -> (r: Option<Identity>)
        requires
            self.wf(),
        ensures
            r is Some <==> self.spec_has(email@),
            r matches Some(id) ==> id.email@ == self.entry_for(email@).email@ && id.role
                == self.entry_for(email@).role,
    {
        let n = self.users.len();
        let mut i: usize = 0;
        while i < n
            invariant
                self.wf(),
                n == self.entries().len(),
                i <= n,
                forall|j: int| 0 <= j < i ==> !same_email(#[trigger] self.entries()[j].email@, email@),
            decreases n - i,
        {
            if emails_match(&self.users[i].email, email) {
                proof {
                    self.lemma_unique_match(email@, i as int);
                }
                return Some(Identity { email: self.users[i].email.clone(), role: self.users[i].role });
            }
            i = i + 1;
        }
        None
    }

    /// The epoch second of the last password change for this email, if the
    /// email is known. Reset tokens issued at or before it are spent.
    pub fn changed_at(&self, email: &String) -> (r: Option<u64>)
        requires
            self.wf(),
        ensures
            r is Some <==> self.spec_has(email@),
            r matches Some(t) ==> t == self.entry_for(email@).pwd_changed_at,
    {
        let n = self.users.len();
        let mut i: usize = 0;
        while i < n
            invariant
                self.wf(),
                n == self.entries().len(),
                i <= n,
                forall|j: int| 0 <= j < i ==> !same_email(#[trigger] self.entries()[j].email@, email@),
            decreases n - i,
        {
            if emails_match(&self.users[i].email, email) {
                proof {
                    self.lemma_unique_match(email@, i as int);
                }
                return Some(self.users[i].pwd_changed_at);
            }
            i = i + 1;
        }
        None
    }

    /// Create an identity: rejected when the email is already taken (up to
    /// case), appended otherwise, with `now` recorded as the moment the
    /// secret was set.
    pub fn create(&mut self, email: String, password: Vec<u8>, role: Role, now: u64) -> (r: Result<
        (),
        AuthError,
    >)
        requires
            old(self).wf(),
        ensures
            final(self).wf(),
            old(self).spec_has(email@) ==> r == Result::<(), AuthError>::Err(AuthError::EmailTaken)
                && final(self).entries() == old(self).entries(),
            !old(self).spec_has(email@) ==> r is Ok && final(self).entries().len() == old(
                self,
            ).entries().len() + 1 && final(self).entries().drop_last() == old(self).entries() && ({
                let e = final(self).entries().last();
                e.email@ == email@ && e.password@ == password@ && e.role == role && e.pwd_changed_at
                    == now
            }),
    {
        let n = self.users.len();
        let mut i: usize = 0;
        while i < n
            invariant
                old(self) == self,
                self.wf(),
                n == self.entries().len(),
                i <= n,
                forall|j: int| 0 <= j < i ==> !same_email(#[trigger] self.entries()[j].email@, email@),
            decreases n - i,
        {
            if emails_match(&self.users[i].email, &email) {
                proof {
                    self.lemma_unique_match(email@, i as int);
                }
                return Err(AuthError::EmailTaken);
            }
            i = i + 1;
        }
        let entry = UserEntry { email, password, role, pwd_changed_at: now };
        self.users.push(entry);
        proof {
            assert(self.entries().drop_last() =~= old(self).entries());
        }
        Ok(())
    }

    /// Replace the stored secret for this email and record `now` as the
    /// moment of the change; every other identity is left as it was. Reports
    /// whether the email was known.
    pub fn update_password(&mut self, email: &String, new_password: Vec<u8>, now: u64) -> (r: bool)
        requires
            old(self).wf(),
        ensures
            final(self).wf(),
            r == old(self).spec_has(email@),
            final(self).entries().len() == old(self).entries().len(),
            forall|j: int|
                0 <= j < final(self).entries().len() && !same_email(
                    #[trigger] old(self).entries()[j].email@,
                    email@,
                ) ==> final(self).entries()[j] == old(self).entries()[j],
            forall|j: int|
                0 <= j < final(self).entries().len() && same_email(
                    #[trigger] old(self).entries()[j].email@,
                    email@,
                ) ==> ({
                    let e = final(self).entries()[j];
                    let o = old(self).entries()[j];
                    e.email@ == o.email@ && e.password@ == new_password@ && e.role == o.role
                        && e.pwd_changed_at == now
                }),
    {
        let n = self.users.len();
        let mut i: usize = 0;
        while i < n
            invariant
                old(self) == self,
                self.wf(),
                n == self.entries().len(),
                i <= n,
                forall|j: int| 0 <= j < i ==> !same_email(#[trigger] self.entries()[j].email@, email@),
            decreases n - i,
        {
            if emails_match(&self.users[i].email, email) {
                proof {
                    self.lemma_unique_match(email@, i as int);
                }
                self.users[i].password = new_password;
                self.users[i].pwd_changed_at = now;
                proof {
                    assert forall|j: int|
                        0 <= j < self.entries().len() && same_email(
                            #[trigger] old(self).entries()[j].email@,
                            email@,
                        ) implies j == i as int by {
                        old(self).lemma_unique_match(email@, j);
                        old(self).lemma_unique_match(email@, i as int);
                    }
                }
                return true;
            }
            i = i + 1;
        }
        false
    }
}

} // verus!
