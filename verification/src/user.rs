//! Accounts, the builder that assembles one, and the user directory with its
//! unique-email invariant. The directory is the one place where a
//! check-then-insert must be atomic: callers serialize every operation on it
//! behind a single lock and hold that lock for the whole call.

use vstd::prelude::*;

verus! {

/// Work factor handed to the password hasher. Deliberately low for a demo;
/// a real deployment raises it.
pub const DEFAULT_WORK_FACTOR: u32 = 4;

/// One account record. The credential field holds a one-way hash, never the
/// plaintext password.
#[derive(Debug, Clone)]
pub struct User {
    pub id: u64,
    pub name: String,
    pub email: String,
    pub bcrypt_password: String,
}

/// Relies on bcrypt::hash: an adaptive, salted, one-way hash of the password
/// at the given cost. The salt is drawn from the operating system, so the
/// result is not a function of the arguments; None comes only when that
/// randomness source fails.
#[verifier::external_body]
fn bcrypt_hash(password: &str, cost: u32) -> (r: Option<String>)
    requires
        4 <= cost <= 31,
{
    bcrypt::hash(password, cost).ok()
}

/// Relies on rand::random: a fresh identifier drawn from the 64-bit space.
/// Nothing is promised of a random value.
#[verifier::external_body]
fn random_u64() -> u64 {
    rand::random::<u64>()
}

impl User {
    /// Replaces the stored credential with a one-way hash of the new
    /// password; the identity fields never change. Returns false, leaving
    /// the record untouched, only when the platform randomness behind the
    /// salt fails.
    pub fn reset_password(&mut self, new_password: &str) -> (r: bool)
        ensures
            final(self).id == old(self).id,
            final(self).name == old(self).name,
            final(self).email == old(self).email,
            !r ==> *final(self) == *old(self),
    {
        match bcrypt_hash(new_password, DEFAULT_WORK_FACTOR) {
            Some(h) => {
                self.bcrypt_password = h;
                true
            },
            None => false,
        }
    }
}

/// True when the option holds exactly the given text.
pub open spec fn holds_text(o: Option<String>, s: Seq<char>) -> bool {
    o matches Some(x) && x@ == s
}

/// Collects name, email and plaintext password; `build` succeeds only once
/// all three are present.
#[derive(Debug)]
pub struct UserBuilder {
    pub requested_name: Option<String>,
    pub requested_email: Option<String>,
    pub requested_password: Option<String>,
}

/// The account carries the name and email that the builder collected.
pub open spec fn built_from(u: User, b: UserBuilder) -> bool {
    &&& b.requested_name matches Some(n) && u.name == n
    &&& b.requested_email matches Some(e) && u.email == e
}

impl UserBuilder {
    /// Starts with no field filled in.
    pub fn new() -> (r: Self)
        ensures
            r.requested_name is None,
            r.requested_email is None,
            r.requested_password is None,
    {
        UserBuilder { requested_name: None, requested_email: None, requested_password: None }
    }

    /// Records the requested email.
    pub fn with_email<'a>(&'a mut self, email: &str) -> (r: &'a mut Self)
        ensures
            holds_text((*r).requested_email, email@),
            (*r).requested_name == old(self).requested_name,
            (*r).requested_password == old(self).requested_password,
            *final(self) == *final(r),
    {
        self.requested_email = Some(email.to_owned());
        self
    }

    /// Records the requested display name.
    pub fn with_name<'a>(&'a mut self, name: &str) -> (r: &'a mut Self)
        ensures
            holds_text((*r).requested_name, name@),
            (*r).requested_email == old(self).requested_email,
            (*r).requested_password == old(self).requested_password,
            *final(self) == *final(r),
    {
        self.requested_name = Some(name.to_owned());
        self
    }

    /// Records the requested plaintext password.
    pub fn with_password<'a>(&'a mut self, password: &str) -> (r: &'a mut Self)
        ensures
            holds_text((*r).requested_password, password@),
            (*r).requested_name == old(self).requested_name,
            (*r).requested_email == old(self).requested_email,
            *final(self) == *final(r),
    {
        self.requested_password = Some(password.to_owned());
        self
    }

    /// Assembles the account: a random identifier, the collected name and
    /// email, and the hashed password. The hashing happens here, before any
    /// directory lock is taken. None when a field is missing, or when the
    /// salt randomness behind the hash fails.
    pub fn build(self) -> (r: Option<User>)
        ensures
            r is Some ==> self.requested_name is Some && self.requested_email is Some
                && self.requested_password is Some,
            self.requested_name is None || self.requested_email is None
                || self.requested_password is None ==> r is None,
            r matches Some(u) ==> built_from(u, self),
    {
        let name = match self.requested_name {
            Some(n) => n,
            None => {
                return None;
            },
        };
        let email = match self.requested_email {
            Some(e) => e,
            None => {
                return None;
            },
        };
        let password = match self.requested_password {
            Some(p) => p,
            None => {
                return None;
            },
        };
        let hashed = match bcrypt_hash(password.as_str(), DEFAULT_WORK_FACTOR) {
            Some(h) => h,
            None => {
                return None;
            },
        };
        Some(User { id: random_u64(), name, email, bcrypt_password: hashed })
    }
}

/// Why a directory operation was refused.
#[derive(Debug, PartialEq, Eq, Structural, Clone, Copy)]
pub enum StoreError {
    /// An account with the same email already exists.
    DuplicateEmail,
    /// No account carries the given identifier.
    NotFound,
}

/// Some account in the sequence carries this email.
pub open spec fn contains_email(s: Seq<User>, email: Seq<char>) -> bool {
    exists|i: int| 0 <= i < s.len() && s[i].email@ == email
}

/// Some account in the sequence carries this identifier.
pub open spec fn contains_id(s: Seq<User>, id: u64) -> bool {
    exists|i: int| 0 <= i < s.len() && s[i].id == id
}

/// Identifiers strictly increase along the sequence.
pub open spec fn sorted_by_id(s: Seq<User>) -> bool {
    forall|i: int, j: int| 0 <= i < j < s.len() ==> s[i].id < s[j].id
}

/// No two accounts share an email.
pub open spec fn emails_unique(s: Seq<User>) -> bool {
    forall|i: int, j: int| 0 <= i < j < s.len() ==> s[i].email@ != s[j].email@
}

/// The second account is the first with at most the credential replaced.
pub open spec fn same_identity(u1: User, u2: User) -> bool {
    u2.id == u1.id && u2.name == u1.name && u2.email == u1.email
}

/// The authoritative mapping from identifier to account, kept sorted by
/// identifier. Concurrent callers share it behind one mutual-exclusion lock
/// and hold the lock for the whole duration of each method call, which makes
/// the check-then-insert of `add` atomic with respect to every other
/// operation.
#[derive(Debug)]
pub struct UserStore {
    users: Vec<User>,
}

impl View for UserStore {
    type V = Seq<User>;

    closed spec fn view(&self) -> Seq<User> {
        self.users@
    }
}

impl UserStore {
    /// Invariant: accounts are sorted by strictly increasing identifier
    /// (so identifiers are unique) and no two accounts share an email.
    pub open spec fn wf(&self) -> bool {
        sorted_by_id(self@) && emails_unique(self@)
    }

    /// An empty directory.
    pub fn new() -> (r: Self)
        ensures
            r@ == Seq::<User>::empty(),
            r.wf(),
    {
        let s = UserStore { users: Vec::new() };
        proof {
            assert(s@ =~= Seq::<User>::empty());
        }
        s
    }

    /// How many accounts the directory holds.
    pub fn len(&self) -> (r: usize)
        ensures
            r == self@.len(),
    {
        self.users.len()
    }

    /// Check-then-insert with the unique-email invariant: scans every
    /// existing account for the email and refuses the insert with
    /// `DuplicateEmail`, mutating nothing, when it is already taken;
    /// otherwise the account goes in at its place in identifier order (an
    /// account that reuses an existing identifier replaces that entry, as a
    /// map insert would).
    pub fn add(&mut self, user: User) -> (r: Result<(), StoreError>)
        requires
            old(self).wf(),
        ensures
            final(self).wf(),
            contains_email(old(self)@, user.email@) ==> r == Err::<(), StoreError>(
                StoreError::DuplicateEmail,
            ) && final(self)@ == old(self)@,
            !contains_email(old(self)@, user.email@) ==> r is Ok && contains_email(
                final(self)@,
                user.email@,
            ),
            !contains_email(old(self)@, user.email@) && !contains_id(old(self)@, user.id)
                ==> exists|k: int|
                0 <= k <= old(self)@.len() && final(self)@ == old(self)@.insert(k, user),
            !contains_email(old(self)@, user.email@) && contains_id(old(self)@, user.id)
                ==> exists|k: int|
                0 <= k < old(self)@.len() && old(self)@[k].id == user.id && final(self)@ == old(
                    self,
                )@.update(k, user),
    {
        let n = self.users.len();
        let mut i: usize = 0;
        while i < n
            invariant
                old(self).wf(),
                self.users@ == old(self)@,
                n == self.users.len(),
                i <= n,
                forall|j: int| 0 <= j < i ==> self.users@[j].email@ != user.email@,
            decreases n - i,
        {
            if self.users[i].email == user.email {
                proof {
                    assert(contains_email(old(self)@, user.email@));
                }
                return Err(StoreError::DuplicateEmail);
            }
            i += 1;
        }
        assert(!contains_email(self.users@, user.email@));
        let mut k: usize = 0;
        while k < n && self.users[k].id < user.id
            invariant
                n == self.users.len(),
                k <= n,
                forall|j: int| 0 <= j < k ==> self.users@[j].id < user.id,
            decreases n - k,
        {
            k += 1;
        }
        let ghost pre = self.users@;
        proof {
            assert(forall|j: int| 0 <= j < pre.len() ==> pre[j].email@ != user.email@);
        }
        if k < n && self.users[k].id == user.id {
            self.users.remove(k);
            self.users.insert(k, user);
            proof {
                let s = self.users@;
                assert(s =~= pre.update(k as int, user));
                assert(pre[k as int].id == user.id);
                assert(contains_id(pre, user.id));
                assert(s[k as int] == user);
                assert(contains_email(s, user.email@));
                assert forall|p: int, q: int| 0 <= p < q < s.len() implies s[p].id < s[q].id by {
                    if p != k && q != k {
                        assert(s[p] == pre[p] && s[q] == pre[q]);
                    } else if p == k {
                        assert(s[q] == pre[q] && pre[k as int].id == user.id);
                    } else {
                        assert(s[p] == pre[p] && pre[k as int].id == user.id);
                    }
                }
                assert forall|p: int, q: int|
                    0 <= p < q < s.len() implies s[p].email@ != s[q].email@ by {
                    if p != k && q != k {
                        assert(s[p] == pre[p] && s[q] == pre[q]);
                    } else if p == k {
                        assert(s[q] == pre[q]);
                    } else {
                        assert(s[p] == pre[p]);
                    }
                }
                assert(0 <= (k as int) && (k as int) < pre.len() && pre[k as int].id == user.id && s == pre.update(
                    k as int,
                    user,
                ));
            }
        } else {
            self.users.insert(k, user);
            proof {
                let s = self.users@;
                assert(s == pre.insert(k as int, user));
                assert(s[k as int] == user);
                assert(contains_email(s, user.email@));
                assert forall|m: int| 0 <= m < pre.len() implies pre[m].id != user.id by {
                    if m >= k {
                        assert((k as int) < n && pre[k as int].id >= user.id && pre[k as int].id
                            != user.id);
                        if m > k {
                            assert(pre[k as int].id < pre[m].id);
                        }
                    }
                }
                assert(!contains_id(pre, user.id));
                assert forall|p: int, q: int| 0 <= p < q < s.len() implies s[p].id < s[q].id by {
                    if q < k {
                        assert(s[p] == pre[p] && s[q] == pre[q]);
                    } else if p > k {
                        assert(s[p] == pre[p - 1] && s[q] == pre[q - 1]);
                    } else if p < k && q == k {
                        assert(s[p] == pre[p] && pre[p].id < user.id);
                    } else if p == k && q > k {
                        assert(s[q] == pre[q - 1]);
                        assert((k as int) < n);
                        assert(pre[k as int].id >= user.id && pre[k as int].id != user.id);
                        if q - 1 > k {
                            assert(pre[k as int].id < pre[q - 1].id);
                        }
                    } else if p < k && q > k {
                        assert(s[p] == pre[p] && s[q] == pre[q - 1]);
                    }
                }
                assert forall|p: int, q: int|
                    0 <= p < q < s.len() implies s[p].email@ != s[q].email@ by {
                    if q < k {
                        assert(s[p] == pre[p] && s[q] == pre[q]);
                    } else if p > k {
                        assert(s[p] == pre[p - 1] && s[q] == pre[q - 1]);
                    } else if p < k && q == k {
                        assert(s[p] == pre[p]);
                    } else if p == k && q > k {
                        assert(s[q] == pre[q - 1]);
                    } else if p < k && q > k {
                        assert(s[p] == pre[p] && s[q] == pre[q - 1]);
                    }
                }
                assert(0 <= (k as int) && (k as int) <= pre.len() && s == pre.insert(k as int, user));
            }
        }
        Ok(())
    }

    /// Looks up an account by identifier; None when it is unknown.
    pub fn get(&self, id: u64) -> (r: Option<&User>)
        ensures
            r matches Some(u) ==> u.id == id && contains_id(self@, id) && exists|i: int|
                0 <= i < self@.len() && self@[i] == *u,
            r is None ==> !contains_id(self@, id),
    {
        let n = self.users.len();
        let mut i: usize = 0;
        while i < n
            invariant
                n == self.users.len(),
                i <= n,
                forall|j: int| 0 <= j < i ==> self.users@[j].id != id,
            decreases n - i,
        {
            if self.users[i].id == id {
                return Some(&self.users[i]);
            }
            i += 1;
        }
        None
    }

    /// Replaces the credential of the account with this identifier by a hash
    /// of the new password; everything else in the directory is untouched.
    /// `NotFound` when the identifier is unknown.
    pub fn reset_password(&mut self, id: u64, new_password: &str) -> (r: Result<(), StoreError>)
        requires
            old(self).wf(),
        ensures
            final(self).wf(),
            !contains_id(old(self)@, id) ==> r == Err::<(), StoreError>(StoreError::NotFound)
                && final(self)@ == old(self)@,
            contains_id(old(self)@, id) ==> r is Ok && final(self)@.len() == old(self)@.len()
                && exists|k: int|
                0 <= k < old(self)@.len() && old(self)@[k].id == id && same_identity(
                    old(self)@[k],
                    final(self)@[k],
                ) && final(self)@ == old(self)@.update(k, final(self)@[k]),
    {
        let n = self.users.len();
        let mut i: usize = 0;
        while i < n
            invariant
                old(self).wf(),
                self.users@ == old(self)@,
                n == self.users.len(),
                i <= n,
                forall|j: int| 0 <= j < i ==> self.users@[j].id != id,
            decreases n - i,
        {
            if self.users[i].id == id {
                let ghost pre = self.users@;
                let mut u = self.users.remove(i);
                let _ = u.reset_password(new_password);
                self.users.insert(i, u);
                proof {
                    let s = self.users@;
                    let fresh = s[i as int];
                    assert(s =~= pre.update(i as int, fresh));
                    assert(same_identity(pre[i as int], fresh));
                    assert(contains_id(pre, id));
                    assert(0 <= (i as int) && (i as int) < pre.len() && pre[i as int].id == id && same_identity(
                        pre[i as int],
                        s[i as int],
                    ) && s == pre.update(i as int, s[i as int]));
                    assert(sorted_by_id(pre) && emails_unique(pre));
                    assert forall|p: int, q: int|
                        0 <= p < q < s.len() implies s[p].id < s[q].id by {
                        assert(pre[p].id < pre[q].id);
                        if p != i && q != i {
                            assert(s[p] == pre[p] && s[q] == pre[q]);
                        } else if p == i {
                            assert(s[q] == pre[q] && s[p].id == pre[p].id);
                        } else {
                            assert(s[p] == pre[p] && s[q].id == pre[q].id);
                        }
                    }
                    assert forall|p: int, q: int|
                        0 <= p < q < s.len() implies s[p].email@ != s[q].email@ by {
                        assert(pre[p].email@ != pre[q].email@);
                        if p != i && q != i {
                            assert(s[p] == pre[p] && s[q] == pre[q]);
                        } else if p == i {
                            assert(s[q] == pre[q] && s[p].email == pre[p].email);
                        } else {
                            assert(s[p] == pre[p] && s[q].email == pre[q].email);
                        }
                    }
                }
                return Ok(());
            }
            i += 1;
        }
        Err(StoreError::NotFound)
    }

    /// All accounts, ordered by ascending identifier: the directory's
    /// deterministic presentation order.
    pub fn list(&self) -> (r: &Vec<User>)
        ensures
            r@ == self@,
            self.wf() ==> sorted_by_id(r@),
    {
        &self.users
    }
}

} // verus!
