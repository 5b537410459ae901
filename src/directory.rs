//! Accounts and the credential keys bound to them.
//!
//! A credential key binds one way of signing in (a password, or a named identity
//! provider) to one account: at most one key per provider and external id, each
//! key owned by an existing account.
use vstd::prelude::*;

verus! {

/// A way of signing in.
#[derive(Debug, Clone, Copy, PartialEq, Eq, Structural)]
pub enum AuthProvider {
    /// Email address and password.
    Email,
    Google,
    GitHub,
}

/// An account.
#[derive(Debug)]
pub struct User {
    pub id: u128,
    pub email: String,
    pub name: String,
    pub is_admin: bool,
}

/// A credential key: `id` is the email address for `Email`, the provider's user
/// id otherwise; only `Email` keys hold a password hash.
#[derive(Debug)]
pub struct Key {
    pub id: String,
    pub provider: AuthProvider,
    pub user_id: u128,
    pub hashed_password: Option<String>,
}

/// Why an account or a key could not be stored.
#[derive(Debug, Clone, Copy, PartialEq, Eq, Structural)]
pub enum DirectoryError {
    /// The account id is already taken.
    IdInUse,
    /// An account with this email address exists.
    EmailInUse,
    /// A key for this provider and external id exists.
    KeyInUse,
    /// The key names no stored account.
    UnknownUser,
}

pub open spec fn id_in_use(users: Seq<User>, id: u128) -> bool {
    exists|i: int| 0 <= i < users.len() && (#[trigger] users[i]).id == id
}

pub open spec fn email_in_use(users: Seq<User>, email: Seq<char>) -> bool {
    exists|i: int| 0 <= i < users.len() && (#[trigger] users[i]).email@ == email
}

pub open spec fn key_matches(k: Key, provider: AuthProvider, key_id: Seq<char>) -> bool {
    k.provider == provider && k.id@ == key_id
}

pub open spec fn key_present(keys: Seq<Key>, provider: AuthProvider, key_id: Seq<char>) -> bool {
    exists|i: int| 0 <= i < keys.len() && key_matches(#[trigger] keys[i], provider, key_id)
}

/// Accounts and keys are unique, and every key has its account.
pub open spec fn directory_invariant(users: Seq<User>, keys: Seq<Key>) -> bool {
    &&& forall|i: int, j: int| 0 <= i < users.len() && 0 <= j < users.len() && i != j
        ==> (#[trigger] users[i]).id != (#[trigger] users[j]).id
    &&& forall|i: int, j: int| 0 <= i < users.len() && 0 <= j < users.len() && i != j
        ==> (#[trigger] users[i]).email@ != (#[trigger] users[j]).email@
    &&& forall|i: int, j: int| 0 <= i < keys.len() && 0 <= j < keys.len() && i != j
        ==> !key_matches(#[trigger] keys[i], (#[trigger] keys[j]).provider, keys[j].id@)
    &&& forall|i: int| 0 <= i < keys.len() ==> id_in_use(users, (#[trigger] keys[i]).user_id)
}

pub open spec fn key_owned_by(user_id: u128) -> spec_fn(Key) -> bool {
    |k: Key| k.user_id == user_id
}

pub open spec fn key_not_owned_by(user_id: u128) -> spec_fn(Key) -> bool {
    |k: Key| k.user_id != user_id
}

pub open spec fn key_is_not(provider: AuthProvider, key_id: Seq<char>) -> spec_fn(Key) -> bool {
    |k: Key| !key_matches(k, provider, key_id)
}

/// The value of `hashed_password` after a password change.
pub open spec fn with_hash(k: Key, hash: String) -> Key {
    Key { hashed_password: Some(hash), ..k }
}

fn copy_user(u: &User) -> (r: User)
    ensures
        r == *u,
{
    User { id: u.id, email: u.email.clone(), name: u.name.clone(), is_admin: u.is_admin }
}

fn copy_key(k: &Key) -> (r: Key)
    ensures
        r == *k,
{
    let hashed_password = match &k.hashed_password {
        Some(h) => Some(h.clone()),
        None => None,
    };
    Key { id: k.id.clone(), provider: k.provider, user_id: k.user_id, hashed_password }
}

/// The account directory.
pub struct Directory {
    users: Vec<User>,
    keys: Vec<Key>,
}

impl Directory {
    pub closed spec fn users(&self) -> Seq<User> {
        self.users@
    }

    pub closed spec fn keys(&self) -> Seq<Key> {
        self.keys@
    }

    pub open spec fn well_formed(&self) -> bool {
        directory_invariant(self.users(), self.keys())
    }

    pub fn new() -> (r: Directory)
        ensures
            r.well_formed(),
            r.users() == Seq::<User>::empty(),
            r.keys() == Seq::<Key>::empty(),
    {
        Directory { users: Vec::new(), keys: Vec::new() }
    }

    fn user_position_by_email(&self, email: &String) -> (r: Option<usize>)
        ensures
            r is None <==> !email_in_use(self.users(), email@),
            r is Some ==> r->0 < self.users().len() && self.users()[r->0 as int].email@ == email@,
    {
        let mut i: usize = 0;
        while i < self.users.len()
            invariant
                i <= self.users@.len(),
                forall|k: int| 0 <= k < i ==> (#[trigger] self.users@[k]).email@ != email@,
            decreases self.users@.len() - i,
        {
            if self.users[i].email == *email {
                return Some(i);
            }
            i = i + 1;
        }
        None
    }

    fn user_position_by_id(&self, id: u128) -> (r: Option<usize>)
        ensures
            r is None <==> !id_in_use(self.users(), id),
            r is Some ==> r->0 < self.users().len() && self.users()[r->0 as int].id == id,
    {
        let mut i: usize = 0;
        while i < self.users.len()
            invariant
                i <= self.users@.len(),
                forall|k: int| 0 <= k < i ==> (#[trigger] self.users@[k]).id != id,
            decreases self.users@.len() - i,
        {
            if self.users[i].id == id {
                return Some(i);
            }
            i = i + 1;
        }
        None
    }

    fn key_position(&self, provider: AuthProvider, key_id: &String) -> (r: Option<usize>)
        ensures
            r is None <==> !key_present(self.keys(), provider, key_id@),
            r is Some ==> r->0 < self.keys().len() && key_matches(self.keys()[r->0 as int], provider, key_id@),
    {
        let mut i: usize = 0;
        while i < self.keys.len()
            invariant
                i <= self.keys@.len(),
                forall|k: int| 0 <= k < i ==> !key_matches(#[trigger] self.keys@[k], provider, key_id@),
            decreases self.keys@.len() - i,
        {
            if self.keys[i].provider == provider && self.keys[i].id == *key_id {
                return Some(i);
            }
            i = i + 1;
        }
        None
    }

    /// The account with this email address.
    pub fn get_user_by_email(&self, email: &str) -> (r: Option<User>)
        ensures
            r is Some <==> email_in_use(self.users(), email@),
            r is Some ==> self.users().contains(r->0) && r->0.email@ == email@,
    {
        let email = email.to_owned();
        match self.user_position_by_email(&email) {
            Some(i) => Some(copy_user(&self.users[i])),
            None => None,
        }
    }

    /// The account with this id.
    pub fn get_user_by_id(&self, id: u128) -> (r: Option<User>)
        ensures
            r is Some <==> id_in_use(self.users(), id),
            r is Some ==> self.users().contains(r->0) && r->0.id == id,
    {
        match self.user_position_by_id(id) {
            Some(i) => Some(copy_user(&self.users[i])),
            None => None,
        }
    }

    /// Stores a new account, unless its id or its email address is taken.
    pub fn create_user(&mut self, user: User) -> (r: Result<(), DirectoryError>)
        requires
            old(self).well_formed(),
        ensures
            final(self).well_formed(),
            final(self).keys() == old(self).keys(),
            r == Err::<(), DirectoryError>(DirectoryError::IdInUse) <==> id_in_use(old(self).users(), user.id),
            r == Err::<(), DirectoryError>(DirectoryError::EmailInUse)
                <==> !id_in_use(old(self).users(), user.id) && email_in_use(old(self).users(), user.email@),
            r is Ok <==> !id_in_use(old(self).users(), user.id) && !email_in_use(old(self).users(), user.email@),
            r is Ok ==> final(self).users() == old(self).users().push(user),
            r is Err ==> final(self).users() == old(self).users(),
    {
        if self.user_position_by_id(user.id).is_some() {
            return Err(DirectoryError::IdInUse);
        }
        if self.user_position_by_email(&user.email).is_some() {
            return Err(DirectoryError::EmailInUse);
        }
        let ghost before = self.users@;
        self.users.push(user);
        proof {
            let s = self.users@;
            assert forall|i: int, j: int| 0 <= i < s.len() && 0 <= j < s.len() && i != j
                implies (#[trigger] s[i]).id != (#[trigger] s[j]).id && s[i].email@ != s[j].email@ by {
                if i == s.len() - 1 {
                    assert(before[j] == s[j]);
                } else if j == s.len() - 1 {
                    assert(before[i] == s[i]);
                } else {
                    assert(before[i] == s[i] && before[j] == s[j]);
                }
            }
            assert forall|i: int| 0 <= i < self.keys@.len() implies id_in_use(s, (#[trigger] self.keys@[i]).user_id) by {
                let k = choose|k: int| 0 <= k < before.len() && (#[trigger] before[k]).id == self.keys@[i].user_id;
                assert(s[k] == before[k]);
            }
        }
        Ok(())
    }

    /// The key for this provider and external id.
    pub fn get_key(&self, provider: AuthProvider, key_id: &str) -> (r: Option<Key>)
        ensures
            r is Some <==> key_present(self.keys(), provider, key_id@),
            r is Some ==> self.keys().contains(r->0) && key_matches(r->0, provider, key_id@),
    {
        let key_id = key_id.to_owned();
        match self.key_position(provider, &key_id) {
            Some(i) => Some(copy_key(&self.keys[i])),
            None => None,
        }
    }

    /// Stores a new key, unless one for its provider and external id exists or its account does not.
    pub fn create_key(&mut self, key: Key) -> (r: Result<(), DirectoryError>)
        requires
            old(self).well_formed(),
        ensures
            final(self).well_formed(),
            final(self).users() == old(self).users(),
            r == Err::<(), DirectoryError>(DirectoryError::KeyInUse) <==> key_present(old(self).keys(), key.provider, key.id@),
            r == Err::<(), DirectoryError>(DirectoryError::UnknownUser)
                <==> !key_present(old(self).keys(), key.provider, key.id@) && !id_in_use(old(self).users(), key.user_id),
            r is Ok <==> !key_present(old(self).keys(), key.provider, key.id@) && id_in_use(old(self).users(), key.user_id),
            r is Ok ==> final(self).keys() == old(self).keys().push(key),
            r is Err ==> final(self).keys() == old(self).keys(),
    {
        if self.key_position(key.provider, &key.id).is_some() {
            return Err(DirectoryError::KeyInUse);
        }
        if self.user_position_by_id(key.user_id).is_none() {
            return Err(DirectoryError::UnknownUser);
        }
        let ghost before = self.keys@;
        self.keys.push(key);
        proof {
            let s = self.keys@;
            assert forall|i: int, j: int| 0 <= i < s.len() && 0 <= j < s.len() && i != j
                implies !key_matches(#[trigger] s[i], (#[trigger] s[j]).provider, s[j].id@) by {
                if i == s.len() - 1 {
                    assert(before[j] == s[j]);
                } else if j == s.len() - 1 {
                    assert(before[i] == s[i]);
                } else {
                    assert(before[i] == s[i] && before[j] == s[j]);
                }
            }
            assert forall|i: int| 0 <= i < s.len() implies id_in_use(self.users@, (#[trigger] s[i]).user_id) by {
                if i < s.len() - 1 {
                    assert(before[i] == s[i]);
                }
            }
        }
        Ok(())
    }

    /// Replaces the password hash of the key for this provider and external id;
    /// says whether there was such a key.
    pub fn update_key_password(&mut self, provider: AuthProvider, key_id: &str, hashed_password: String) -> (found: bool)
        requires
            old(self).well_formed(),
        ensures
            final(self).well_formed(),
            final(self).users() == old(self).users(),
            found == key_present(old(self).keys(), provider, key_id@),
            final(self).keys().len() == old(self).keys().len(),
            forall|j: int| 0 <= j < old(self).keys().len() ==> #[trigger] final(self).keys()[j] == if key_matches(old(self).keys()[j], provider, key_id@) {
                with_hash(old(self).keys()[j], hashed_password)
            } else {
                old(self).keys()[j]
            },
    {
        let key_id = key_id.to_owned();
        match self.key_position(provider, &key_id) {
            None => {
                false
            },
            Some(i) => {
                let ghost before = self.keys@;
                let old_key = copy_key(&self.keys[i]);
                let updated = Key {
                    id: old_key.id,
                    provider: old_key.provider,
                    user_id: old_key.user_id,
                    hashed_password: Some(hashed_password),
                };
                self.keys.set(i, updated);
                proof {
                    let s = self.keys@;
                    assert forall|j: int| 0 <= j < before.len() implies #[trigger] s[j] == if key_matches(before[j], provider, key_id@) {
                        with_hash(before[j], hashed_password)
                    } else {
                        before[j]
                    } by {
                        if j != i {
                            assert(!key_matches(before[j], before[i as int].provider, before[i as int].id@));
                        }
                    }
                    assert forall|a: int, b: int| 0 <= a < s.len() && 0 <= b < s.len() && a != b
                        implies !key_matches(#[trigger] s[a], (#[trigger] s[b]).provider, s[b].id@) by {
                        assert(!key_matches(before[a], before[b].provider, before[b].id@));
                    }
                    assert forall|a: int| 0 <= a < s.len() implies id_in_use(self.users@, (#[trigger] s[a]).user_id) by {
                        assert(id_in_use(self.users@, before[a].user_id));
                    }
                }
                true
            },
        }
    }

    /// The keys of an account, in the order they were stored.
    pub fn get_user_keys(&self, user_id: u128) -> (r: Vec<Key>)
        ensures
            r@ == self.keys().filter(key_owned_by(user_id)),
    {
        let ghost s = self.keys@;
        let mut found: Vec<Key> = Vec::new();
        let mut i: usize = 0;
        while i < self.keys.len()
            invariant
                s == self.keys@,
                i <= s.len(),
                found@ == s.subrange(0, i as int).filter(key_owned_by(user_id)),
            decreases s.len() - i,
        {
            proof {
                assert(s.subrange(0, i + 1) =~= s.subrange(0, i as int).push(s[i as int]));
                s.subrange(0, i as int).lemma_filter_push(s[i as int], key_owned_by(user_id));
            }
            if self.keys[i].user_id == user_id {
                found.push(copy_key(&self.keys[i]));
            }
            i = i + 1;
        }
        assert(s.subrange(0, s.len() as int) =~= s);
        found
    }

    /// Removes the key for this provider and id (or, `by_user`, every key of this account), keeping the order of the rest.
    fn retain_keys(&mut self, provider: AuthProvider, key_id: &String, user_id: u128, by_user: bool)
        requires
            old(self).well_formed(),
        ensures
            final(self).well_formed(),
            final(self).users() == old(self).users(),
            !by_user ==> final(self).keys() == old(self).keys().filter(key_is_not(provider, key_id@)),
            by_user ==> final(self).keys() == old(self).keys().filter(key_not_owned_by(user_id)),
    {
        let ghost s = self.keys@;
        let ghost pred = if by_user { key_not_owned_by(user_id) } else { key_is_not(provider, key_id@) };
        let mut kept: Vec<Key> = Vec::new();
        let mut i: usize = 0;
        while i < self.keys.len()
            invariant
                s == self.keys@,
                i <= s.len(),
                pred == (if by_user { key_not_owned_by(user_id) } else { key_is_not(provider, key_id@) }),
                kept@ == s.subrange(0, i as int).filter(pred),
                directory_invariant(self.users@, s),
                forall|k: int| 0 <= k < kept@.len() ==> exists|j: int| 0 <= j < i && s[j] == #[trigger] kept@[k],
                forall|a: int, b: int| 0 <= a < kept@.len() && 0 <= b < kept@.len() && a != b
                    ==> !key_matches(#[trigger] kept@[a], (#[trigger] kept@[b]).provider, kept@[b].id@),
            decreases s.len() - i,
        {
            proof {
                assert(s.subrange(0, i + 1) =~= s.subrange(0, i as int).push(s[i as int]));
                s.subrange(0, i as int).lemma_filter_push(s[i as int], pred);
            }
            let keep = if by_user {
                self.keys[i].user_id != user_id
            } else {
                !(self.keys[i].provider == provider && self.keys[i].id == *key_id)
            };
            if keep {
                let ghost before = kept@;
                kept.push(copy_key(&self.keys[i]));
                proof {
                    assert forall|a: int, b: int| 0 <= a < kept@.len() && 0 <= b < kept@.len() && a != b
                        implies !key_matches(#[trigger] kept@[a], (#[trigger] kept@[b]).provider, kept@[b].id@) by {
                        if a == before.len() {
                            assert(before[b] == kept@[b]);
                            let j = choose|j: int| 0 <= j < i && s[j] == #[trigger] before[b];
                            assert(!key_matches(s[i as int], s[j].provider, s[j].id@));
                        } else if b == before.len() {
                            assert(before[a] == kept@[a]);
                            let j = choose|j: int| 0 <= j < i && s[j] == #[trigger] before[a];
                            assert(!key_matches(s[j], s[i as int].provider, s[i as int].id@));
                        } else {
                            assert(before[a] == kept@[a] && before[b] == kept@[b]);
                        }
                    }
                    assert forall|k: int| 0 <= k < kept@.len() implies exists|j: int| 0 <= j < i + 1 && s[j] == #[trigger] kept@[k] by {
                        if k == before.len() {
                            assert(s[i as int] == kept@[k]);
                        } else {
                            assert(before[k] == kept@[k]);
                            let j = choose|j: int| 0 <= j < i && s[j] == #[trigger] before[k];
                        }
                    }
                }
            }
            i = i + 1;
        }
        assert(s.subrange(0, s.len() as int) =~= s);
        proof {
            assert forall|k: int| 0 <= k < kept@.len() implies id_in_use(self.users@, (#[trigger] kept@[k]).user_id) by {
                let j = choose|j: int| 0 <= j < s.len() && s[j] == #[trigger] kept@[k];
                assert(id_in_use(self.users@, s[j].user_id));
            }
        }
        self.keys = kept;
    }

    /// Removes the key for this provider and external id; says whether there was one.
    pub fn delete_key(&mut self, provider: AuthProvider, key_id: &str) -> (removed: bool)
        requires
            old(self).well_formed(),
        ensures
            final(self).well_formed(),
            final(self).users() == old(self).users(),
            final(self).keys() == old(self).keys().filter(key_is_not(provider, key_id@)),
            removed == key_present(old(self).keys(), provider, key_id@),
    {
        let key_id = key_id.to_owned();
        let removed = self.key_position(provider, &key_id).is_some();
        self.retain_keys(provider, &key_id, 0, false);
        removed
    }

    /// Removes every key of an account.
    pub fn delete_all_user_keys(&mut self, user_id: u128)
        requires
            old(self).well_formed(),
        ensures
            final(self).well_formed(),
            final(self).users() == old(self).users(),
            final(self).keys() == old(self).keys().filter(key_not_owned_by(user_id)),
    {
        let unused = String::new();
        self.retain_keys(AuthProvider::Email, &unused, user_id, true);
    }
}

} // verus!
