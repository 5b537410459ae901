//! The authentication flows: register, login, refresh, revoke, change password
//! and third-party sign-in, over one credential model chosen at start-up.
//!
//! Fresh identifiers and the current time are arguments: the caller draws them,
//! and every flow is specified for every value of them.
use vstd::prelude::*;
use crate::directory::{
    directory_invariant, email_in_use, id_in_use, key_matches, key_present, AuthProvider, Directory, Key, User,
};
use crate::error::{AppError, FieldIssue};
use crate::ids::{expiry_after, expires_at, now_timestamp, parsed_uuid, random_id, uuid_from_text};
use crate::oauth::{GoogleUserInfo, OAuthStates, PendingState, state_is_not, state_live};
use crate::password::{hash_password, password_accepts, verify_password};
use crate::store::{
    holds_id, id_is_not, live_in, unique_ids, user_is_not, CredentialRecord, CredentialStore,
};
use crate::token::{
    create_access_token, create_refresh_token, decode_access_token, decode_refresh_token,
    AccessTokenClaims, JwtConfig,
};
use crate::validation::{length_within, registration_issues, valid_registration, validate_registration};

verus! {

/// How long an opaque session lives, in seconds.
pub const SESSION_MAX_AGE: u64 = 86400;

/// How long a state value bound to an authorization request lives, in seconds.
pub const OAUTH_STATE_MAX_AGE: u64 = 600;

/// The two credential models: a signed access/refresh token pair whose family is
/// recorded server-side, or an opaque session id that only the server can resolve.
#[derive(Debug, Clone, Copy, PartialEq, Eq, Structural)]
pub enum CredentialModel {
    SignedTokenPair,
    OpaqueSession,
}

/// A credential handed to a client.
#[derive(Debug)]
pub enum Credential {
    TokenPair { access_token: String, refresh_token: String, token_id: u128 },
    Session { session_id: u128 },
}

impl Credential {
    /// The id of the server-side record that controls this credential.
    pub open spec fn record_id(self) -> u128 {
        match self {
            Credential::TokenPair { token_id, .. } => token_id,
            Credential::Session { session_id } => session_id,
        }
    }
}

/// The account and the credential of a successful sign-in.
#[derive(Debug)]
pub struct SignedIn {
    pub user: User,
    pub credential: Credential,
}

/// The outcome of a third-party sign-in.
#[derive(Debug)]
pub struct OAuthSignedIn {
    pub user: User,
    pub credential: Credential,
    pub is_new_user: bool,
}

/// A refresh grant is accepted only for an unexpired token whose family is live.
pub open spec fn refresh_accepts(families: Seq<CredentialRecord>, claims: AccessTokenClaims, now: i64) -> bool {
    claims.exp > now && live_in(families, claims.token_id, now)
}

/// The email/password pair opens the account: an `Email` key for the address
/// holds a hash that accepts the password.
pub open spec fn password_key_accepts(keys: Seq<Key>, email: Seq<char>, password: Seq<char>) -> bool {
    exists|i: int| 0 <= i < keys.len() && key_matches(#[trigger] keys[i], AuthProvider::Email, email)
        && keys[i].hashed_password is Some && password_accepts(password, keys[i].hashed_password->0@)
}

/// A login succeeds on these credentials, as far as the directory decides.
pub open spec fn login_accepts(users: Seq<User>, keys: Seq<Key>, email: Seq<char>, password: Seq<char>) -> bool {
    email_in_use(users, email) && password_key_accepts(keys, email, password)
}

/// The account that the key for this provider and external id belongs to.
pub open spec fn linked_user(keys: Seq<Key>, provider: AuthProvider, key_id: Seq<char>) -> u128 {
    keys[choose|i: int| 0 <= i < keys.len() && key_matches(#[trigger] keys[i], provider, key_id)].user_id
}

/// The id of the account with this email address.
pub open spec fn user_id_by_email(users: Seq<User>, email: Seq<char>) -> u128 {
    users[choose|i: int| 0 <= i < users.len() && (#[trigger] users[i]).email@ == email].id
}

/// The account that a third-party sign-in resolves to, first match wins: the
/// account of the provider's key for this user, else the account with the
/// profile's email address, else a new account with id `new_user_id`.
pub open spec fn oauth_account(users: Seq<User>, keys: Seq<Key>, provider: AuthProvider, profile: GoogleUserInfo, new_user_id: u128) -> u128 {
    if key_present(keys, provider, profile.sub@) {
        linked_user(keys, provider, profile.sub@)
    } else if email_in_use(users, profile.email@) {
        user_id_by_email(users, profile.email@)
    } else {
        new_user_id
    }
}

/// The account that owns the record with this id.
pub open spec fn record_owner(records: Seq<CredentialRecord>, id: u128) -> u128 {
    records[choose|i: int| 0 <= i < records.len() && (#[trigger] records[i]).id == id].user_id
}

/// The account with this id.
pub open spec fn user_with_id(users: Seq<User>, id: u128) -> User {
    users[choose|j: int| 0 <= j < users.len() && (#[trigger] users[j]).id == id]
}

/// The email address of the account that owns the record with this id.
pub open spec fn owner_email(users: Seq<User>, records: Seq<CredentialRecord>, id: u128) -> Seq<char> {
    user_with_id(users, record_owner(records, id)).email@
}

/// The display name of an account made from a profile: its name, else its email address.
pub open spec fn profile_name(profile: GoogleUserInfo) -> String {
    match profile.name {
        Some(n) => n,
        None => profile.email,
    }
}

impl CredentialRecord {
    /// A session for an account with a random id, living `SESSION_MAX_AGE`
    /// seconds from the system clock's present.
    pub fn new_random_from(user_id: u128) -> (r: CredentialRecord)
        ensures
            r.user_id == user_id,
            exists|now: i64| r.expiration == expiry_after(now, SESSION_MAX_AGE),
    {
        let id = random_id();
        let now = now_timestamp();
        CredentialRecord { id, user_id, expiration: expires_at(now, SESSION_MAX_AGE) }
    }
}

/// The credential flows over an account directory and a credential registry.
pub struct AuthService {
    jwt_config: JwtConfig,
    model: CredentialModel,
    directory: Directory,
    credentials: CredentialStore,
    oauth_states: OAuthStates,
}

impl AuthService {
    pub closed spec fn model(&self) -> CredentialModel {
        self.model
    }

    pub closed spec fn jwt(&self) -> &JwtConfig {
        &self.jwt_config
    }

    pub closed spec fn users(&self) -> Seq<User> {
        self.directory.users()
    }

    pub closed spec fn keys(&self) -> Seq<Key> {
        self.directory.keys()
    }

    /// The live records: token families, or sessions, as the model says.
    pub closed spec fn records(&self) -> Seq<CredentialRecord> {
        self.credentials@
    }

    pub closed spec fn pending_states(&self) -> Seq<PendingState> {
        self.oauth_states@
    }

    /// Accounts, emails and keys are unique, every key has its account, and
    /// record ids are unique.
    pub open spec fn well_formed(&self) -> bool {
        directory_invariant(self.users(), self.keys()) && unique_ids(self.records())
    }

    /// How long a record of the model lives: a refresh token's lifetime, or a session's.
    pub open spec fn record_age(&self) -> u64 {
        match self.model() {
            CredentialModel::SignedTokenPair => self.jwt().refresh_token_max_age,
            CredentialModel::OpaqueSession => SESSION_MAX_AGE,
        }
    }

    /// The record of a credential issued at `now` to `user_id` with id `fresh_id`.
    pub open spec fn record_at(&self, user_id: u128, fresh_id: u128, now: i64) -> CredentialRecord {
        CredentialRecord { id: fresh_id, user_id, expiration: expiry_after(now, self.record_age()) }
    }

    /// The failure that reports a credential that is not accepted, by model.
    pub open spec fn rejection(&self) -> AppError {
        match self.model() {
            CredentialModel::SignedTokenPair => AppError::InvalidToken,
            CredentialModel::OpaqueSession => AppError::InvalidSession,
        }
    }

    /// What a password change through the record with id `id` gives, as far as
    /// the records and the directory decide: the record must be live, its account
    /// known and the old password accepted by the account's password key; then a
    /// fresh id that is not taken leads to success, unless signing fails.
    pub open spec fn password_change_verdict(
        &self,
        id: Option<u128>,
        old_password: Seq<char>,
        new_password: Seq<char>,
        fresh_id: u128,
        now: i64,
        r: Result<SignedIn, AppError>,
    ) -> bool {
        let live = id is Some && live_in(self.records(), id->0, now);
        let owner = record_owner(self.records(), id->0);
        let known = id_in_use(self.users(), owner);
        let accepted = password_key_accepts(self.keys(), owner_email(self.users(), self.records(), id->0), old_password);
        &&& !(live && known) ==> r == Err::<SignedIn, AppError>(self.rejection())
        &&& live && known && !accepted ==> r == Err::<SignedIn, AppError>(AppError::InvalidCredentials)
        &&& live && known && accepted && holds_id(self.records(), fresh_id) ==> r == Err::<SignedIn, AppError>(AppError::Internal)
        &&& live && known && accepted && !holds_id(self.records(), fresh_id) && new_password.len() < 0x4000_0000
            ==> r is Ok || (self.model() == CredentialModel::SignedTokenPair && r == Err::<SignedIn, AppError>(AppError::Internal))
        &&& r is Ok ==> live && known && r->Ok_0.user == user_with_id(self.users(), owner)
    }

    /// A stored record is the only one with its id.
    proof fn lemma_record_owner(&self, rec: CredentialRecord)
        requires
            self.well_formed(),
            self.records().contains(rec),
        ensures
            record_owner(self.records(), rec.id) == rec.user_id,
    {
        let records = self.records();
        let j = choose|j: int| 0 <= j < records.len() && records[j] == rec;
        assert(records[j].id == rec.id);
        let i = choose|i: int| 0 <= i < records.len() && (#[trigger] records[i]).id == rec.id;
        if i != j {
            assert(records[i].id != records[j].id);
        }
    }

    /// A stored account is the only one with its id.
    proof fn lemma_user_with_id(&self, u: User)
        requires
            self.well_formed(),
            self.users().contains(u),
        ensures
            user_with_id(self.users(), u.id) == u,
    {
        let users = self.users();
        let j = choose|j: int| 0 <= j < users.len() && users[j] == u;
        assert(users[j].id == u.id);
        let i = choose|i: int| 0 <= i < users.len() && (#[trigger] users[i]).id == u.id;
        if i != j {
            assert(users[i].id != users[j].id);
        }
    }

    pub fn new(jwt_config: JwtConfig, model: CredentialModel) -> (r: AuthService)
        ensures
            r.well_formed(),
            r.model() == model,
            r.jwt() == &jwt_config,
            r.users() == Seq::<User>::empty(),
            r.keys() == Seq::<Key>::empty(),
            r.records() == Seq::<CredentialRecord>::empty(),
            r.pending_states() == Seq::<PendingState>::empty(),
    {
        AuthService {
            jwt_config,
            model,
            directory: Directory::new(),
            credentials: CredentialStore::new(),
            oauth_states: OAuthStates::new(),
        }
    }

    pub fn credential_model(&self) -> (r: CredentialModel)
        ensures
            r == self.model(),
    {
        self.model
    }

    fn record_max_age(&self) -> (r: u64)
        ensures
            r == self.record_age(),
    {
        match self.model {
            CredentialModel::SignedTokenPair => self.jwt_config.refresh_token_max_age,
            CredentialModel::OpaqueSession => SESSION_MAX_AGE,
        }
    }

    fn rejection_error(&self) -> (r: AppError)
        ensures
            r == self.rejection(),
    {
        match self.model {
            CredentialModel::SignedTokenPair => AppError::InvalidToken,
            CredentialModel::OpaqueSession => AppError::InvalidSession,
        }
    }

    /// Makes the credential for a record without storing it: signs the token pair,
    /// or names the session. Fails only where signing fails.
    fn make_credential(&self, user_id: u128, fresh_id: u128, now: i64) -> (r: Result<Credential, AppError>)
        ensures
            r is Ok ==> r->Ok_0.record_id() == fresh_id,
            self.model() == CredentialModel::OpaqueSession ==> r is Ok,
            r is Err ==> r == Err::<Credential, AppError>(AppError::Internal),
    {
        match self.model {
            CredentialModel::OpaqueSession => Ok(Credential::Session { session_id: fresh_id }),
            CredentialModel::SignedTokenPair => {
                let access_token = match create_access_token(&self.jwt_config, fresh_id, user_id, now) {
                    Ok(t) => t,
                    Err(e) => return Err(e),
                };
                let refresh_token = match create_refresh_token(&self.jwt_config, fresh_id, user_id, now) {
                    Ok(t) => t,
                    Err(e) => return Err(e),
                };
                Ok(Credential::TokenPair { access_token, refresh_token, token_id: fresh_id })
            },
        }
    }

    /// Issues a credential to an account: it is handed out only once its record is stored.
    pub fn issue(&mut self, user_id: u128, fresh_id: u128, now: i64) -> (r: Result<Credential, AppError>)
        requires
            old(self).well_formed(),
        ensures
            final(self).well_formed(),
            final(self).model() == old(self).model(),
            final(self).jwt() == old(self).jwt(),
            final(self).users() == old(self).users(),
            final(self).keys() == old(self).keys(),
            final(self).pending_states() == old(self).pending_states(),
            holds_id(old(self).records(), fresh_id) ==> r == Err::<Credential, AppError>(AppError::Internal),
            old(self).model() == CredentialModel::OpaqueSession && !holds_id(old(self).records(), fresh_id) ==> r is Ok,
            r is Ok ==> r->Ok_0.record_id() == fresh_id
                && final(self).records() == old(self).records().push(old(self).record_at(user_id, fresh_id, now)),
            r is Err ==> r == Err::<Credential, AppError>(AppError::Internal) && final(self).records() == old(self).records(),
    {
        if self.credentials.contains_id(fresh_id) {
            return Err(AppError::Internal);
        }
        let credential = match self.make_credential(user_id, fresh_id, now) {
            Ok(c) => c,
            Err(e) => return Err(e),
        };
        let record = CredentialRecord { id: fresh_id, user_id, expiration: expires_at(now, self.record_max_age()) };
        match self.credentials.create(record) {
            Ok(()) => Ok(credential),
            Err(_) => Err(AppError::Internal),
        }
    }

    /// The live record that an id names, for a presented credential.
    pub fn resolve_record(&self, id: Option<u128>, now: i64) -> (r: Result<CredentialRecord, AppError>)
        requires
            self.well_formed(),
        ensures
            r is Ok <==> id is Some && live_in(self.records(), id->0, now),
            r is Ok ==> self.records().contains(r->Ok_0) && r->Ok_0.id == id->0 && r->Ok_0.expiration > now,
            r is Err ==> r == Err::<CredentialRecord, AppError>(self.rejection()),
    {
        match id {
            None => Err(self.rejection_error()),
            Some(id) => match self.credentials.lookup_valid(id, now) {
                Some(rec) => Ok(rec),
                None => Err(self.rejection_error()),
            },
        }
    }

    /// The record id that a presented credential names: the family of an access
    /// token whose signature and expiry check out, or the session id it spells.
    fn presented_id(&self, credential: &str, now: i64) -> (r: Option<u128>)
        ensures
            self.model() == CredentialModel::OpaqueSession ==> r == parsed_uuid(credential@),
    {
        match self.model {
            CredentialModel::SignedTokenPair => match decode_access_token(&self.jwt_config, credential, now) {
                Ok(claims) => Some(claims.token_id),
                Err(_) => None,
            },
            CredentialModel::OpaqueSession => uuid_from_text(credential),
        }
    }

    /// Checks a presented credential (an access token, or a session id): it is
    /// accepted only while its record is live.
    pub fn authenticate(&self, credential: &str, now: i64) -> (r: Result<CredentialRecord, AppError>)
        requires
            self.well_formed(),
        ensures
            r is Ok ==> self.records().contains(r->Ok_0) && r->Ok_0.expiration > now
                && live_in(self.records(), r->Ok_0.id, now),
            self.model() == CredentialModel::OpaqueSession ==> (r is Ok <==> parsed_uuid(credential@) is Some
                && live_in(self.records(), parsed_uuid(credential@)->0, now)),
            self.model() == CredentialModel::OpaqueSession && r is Ok ==> r->Ok_0.id == parsed_uuid(credential@)->0,
            r is Err ==> r == Err::<CredentialRecord, AppError>(self.rejection()),
    {
        let id = self.presented_id(credential, now);
        self.resolve_record(id, now)
    }

    /// The account that a presented credential belongs to.
    pub fn me(&self, credential: &str, now: i64) -> (r: Result<User, AppError>)
        requires
            self.well_formed(),
        ensures
            r is Ok ==> self.users().contains(r->Ok_0)
                && exists|i: int| 0 <= i < self.records().len() && (#[trigger] self.records()[i]).user_id == r->Ok_0.id
                    && self.records()[i].expiration > now,
            self.model() == CredentialModel::OpaqueSession ==> (r is Ok <==> parsed_uuid(credential@) is Some
                && live_in(self.records(), parsed_uuid(credential@)->0, now)
                && id_in_use(self.users(), record_owner(self.records(), parsed_uuid(credential@)->0))),
            self.model() == CredentialModel::OpaqueSession && r is Ok
                ==> r->Ok_0 == user_with_id(self.users(), record_owner(self.records(), parsed_uuid(credential@)->0)),
            r is Err ==> r == Err::<User, AppError>(self.rejection()),
    {
        let rec = match self.authenticate(credential, now) {
            Ok(rec) => rec,
            Err(e) => return Err(e),
        };
        proof {
            self.lemma_record_owner(rec);
        }
        match self.directory.get_user_by_id(rec.user_id) {
            Some(user) => {
                proof {
                    self.lemma_user_with_id(user);
                }
                Ok(user)
            },
            None => Err(self.rejection_error()),
        }
    }

    /// Decides a refresh grant for claims read from a refresh token: the family
    /// must be live and the token unexpired; gives the family's account.
    pub fn refresh_grant(&self, claims: AccessTokenClaims, now: i64) -> (r: Result<u128, AppError>)
        requires
            self.well_formed(),
        ensures
            r is Ok <==> refresh_accepts(self.records(), claims, now),
            r is Ok ==> exists|i: int| 0 <= i < self.records().len()
                && #[trigger] self.records()[i] == (CredentialRecord { id: claims.token_id, user_id: r->Ok_0, expiration: self.records()[i].expiration }),
            r is Err ==> r == Err::<u128, AppError>(AppError::InvalidToken),
    {
        if claims.exp <= now {
            return Err(AppError::InvalidToken);
        }
        match self.credentials.lookup_valid(claims.token_id, now) {
            Some(rec) => Ok(rec.user_id),
            None => Err(AppError::InvalidToken),
        }
    }

    /// Exchanges a refresh token for a new access token of the same family. The
    /// refresh token itself is not reissued.
    pub fn refresh(&self, refresh_token: &str, now: i64) -> (r: Result<String, AppError>)
        requires
            self.well_formed(),
        ensures
            self.model() == CredentialModel::OpaqueSession ==> r == Err::<String, AppError>(AppError::InvalidToken),
            r is Ok ==> self.model() == CredentialModel::SignedTokenPair
                && exists|c: AccessTokenClaims| refresh_accepts(self.records(), c, now),
            r is Err ==> r == Err::<String, AppError>(AppError::InvalidToken) || r == Err::<String, AppError>(AppError::Internal),
    {
        if self.model == CredentialModel::OpaqueSession {
            return Err(AppError::InvalidToken);
        }
        let claims = match decode_refresh_token(&self.jwt_config, refresh_token, now) {
            Ok(c) => c,
            Err(e) => return Err(e),
        };
        let user_id = match self.refresh_grant(claims, now) {
            Ok(u) => u,
            Err(e) => return Err(e),
        };
        create_access_token(&self.jwt_config, claims.token_id, user_id, now)
    }

    /// Deletes the record with this id; says whether there was one.
    pub fn revoke_id(&mut self, id: u128) -> (removed: bool)
        requires
            old(self).well_formed(),
        ensures
            final(self).well_formed(),
            final(self).model() == old(self).model(),
            final(self).jwt() == old(self).jwt(),
            final(self).users() == old(self).users(),
            final(self).keys() == old(self).keys(),
            final(self).pending_states() == old(self).pending_states(),
            final(self).records() == old(self).records().filter(id_is_not(id)),
            removed == holds_id(old(self).records(), id),
    {
        self.credentials.delete(id)
    }

    /// Revokes the credential that a presented access token (or session id) names.
    /// Revoking again is no error: it gives the id with `false`.
    pub fn revoke(&mut self, credential: &str, now: i64) -> (r: Result<(u128, bool), AppError>)
        requires
            old(self).well_formed(),
        ensures
            final(self).well_formed(),
            final(self).model() == old(self).model(),
            final(self).jwt() == old(self).jwt(),
            final(self).users() == old(self).users(),
            final(self).keys() == old(self).keys(),
            final(self).pending_states() == old(self).pending_states(),
            r is Ok ==> final(self).records() == old(self).records().filter(id_is_not(r->Ok_0.0))
                && r->Ok_0.1 == holds_id(old(self).records(), r->Ok_0.0),
            old(self).model() == CredentialModel::OpaqueSession ==> (r is Ok <==> parsed_uuid(credential@) is Some),
            old(self).model() == CredentialModel::OpaqueSession && r is Ok ==> r->Ok_0.0 == parsed_uuid(credential@)->0,
            r is Err ==> r == Err::<(u128, bool), AppError>(old(self).rejection()) && final(self).records() == old(self).records(),
    {
        match self.presented_id(credential, now) {
            None => Err(self.rejection_error()),
            Some(id) => {
                let removed = self.revoke_id(id);
                Ok((id, removed))
            },
        }
    }

    /// Checks a password against the password key of an email address.
    fn check_key_password(&self, email: &str, password: &str) -> (r: Result<(), AppError>)
        requires
            self.well_formed(),
        ensures
            r is Ok <==> password_key_accepts(self.keys(), email@, password@),
            r is Err ==> r == Err::<(), AppError>(AppError::InvalidCredentials),
    {
        let key = match self.directory.get_key(AuthProvider::Email, email) {
            Some(k) => k,
            None => return Err(AppError::InvalidCredentials),
        };
        proof {
            self.lemma_key_unique(key, AuthProvider::Email, email@);
        }
        let hashed = match &key.hashed_password {
            Some(h) => h,
            None => return Err(AppError::InvalidCredentials),
        };
        if !verify_password(password, hashed.as_str()) {
            return Err(AppError::InvalidCredentials);
        }
        Ok(())
    }

    /// Checks an email/password pair against the directory, telling no cause apart.
    fn check_password(&self, email: &str, password: &str) -> (r: Result<User, AppError>)
        requires
            self.well_formed(),
        ensures
            r is Ok <==> login_accepts(self.users(), self.keys(), email@, password@),
            r is Ok ==> self.users().contains(r->Ok_0) && r->Ok_0.email@ == email@,
            r is Err ==> r == Err::<User, AppError>(AppError::InvalidCredentials),
    {
        let user = match self.directory.get_user_by_email(email) {
            Some(u) => u,
            None => return Err(AppError::InvalidCredentials),
        };
        match self.check_key_password(email, password) {
            Ok(()) => Ok(user),
            Err(e) => Err(e),
        }
    }

    /// An account found in the directory is the only one with its email address.
    proof fn lemma_user_unique(&self, user: User)
        requires
            self.well_formed(),
            self.users().contains(user),
        ensures
            forall|i: int| 0 <= i < self.users().len() && (#[trigger] self.users()[i]).email@ == user.email@
                ==> self.users()[i] == user,
    {
        let users = self.users();
        let j = choose|j: int| 0 <= j < users.len() && users[j] == user;
        assert forall|i: int| 0 <= i < users.len() && (#[trigger] users[i]).email@ == user.email@
            implies users[i] == user by {
            if i != j {
                assert(users[i].email@ != users[j].email@);
            }
        }
    }

    /// A key found in the directory is the only one for its provider and id.
    proof fn lemma_key_unique(&self, key: Key, provider: AuthProvider, key_id: Seq<char>)
        requires
            self.well_formed(),
            self.keys().contains(key),
            key_matches(key, provider, key_id),
        ensures
            forall|i: int| 0 <= i < self.keys().len() && key_matches(#[trigger] self.keys()[i], provider, key_id)
                ==> self.keys()[i] == key,
    {
        let keys = self.keys();
        let j = choose|j: int| 0 <= j < keys.len() && keys[j] == key;
        assert forall|i: int| 0 <= i < keys.len() && key_matches(#[trigger] keys[i], provider, key_id)
            implies keys[i] == key by {
            if i != j {
                assert(!key_matches(keys[i], keys[j].provider, keys[j].id@));
            }
        }
    }

    /// Signs in with an email address and a password. Any mismatch is
    /// `InvalidCredentials`, whichever part was wrong.
    pub fn login(&mut self, email: &str, password: &str, fresh_id: u128, now: i64) -> (r: Result<SignedIn, AppError>)
        requires
            old(self).well_formed(),
        ensures
            final(self).well_formed(),
            final(self).model() == old(self).model(),
            final(self).jwt() == old(self).jwt(),
            final(self).users() == old(self).users(),
            final(self).keys() == old(self).keys(),
            final(self).pending_states() == old(self).pending_states(),
            !login_accepts(old(self).users(), old(self).keys(), email@, password@)
                ==> r == Err::<SignedIn, AppError>(AppError::InvalidCredentials),
            login_accepts(old(self).users(), old(self).keys(), email@, password@) && holds_id(old(self).records(), fresh_id)
                ==> r == Err::<SignedIn, AppError>(AppError::Internal),
            login_accepts(old(self).users(), old(self).keys(), email@, password@) && !holds_id(old(self).records(), fresh_id)
                && old(self).model() == CredentialModel::OpaqueSession ==> r is Ok,
            r is Ok ==> old(self).users().contains(r->Ok_0.user) && r->Ok_0.user.email@ == email@
                && r->Ok_0.credential.record_id() == fresh_id
                && final(self).records() == old(self).records().push(old(self).record_at(r->Ok_0.user.id, fresh_id, now)),
            r is Err ==> final(self).records() == old(self).records()
                && (r == Err::<SignedIn, AppError>(AppError::InvalidCredentials) || r == Err::<SignedIn, AppError>(AppError::Internal)),
    {
        let user = match self.check_password(email, password) {
            Ok(u) => u,
            Err(e) => return Err(e),
        };
        match self.issue(user.id, fresh_id, now) {
            Ok(credential) => Ok(SignedIn { user, credential }),
            Err(e) => Err(e),
        }
    }

    /// Gives an email address a password key and signs its account in. The
    /// address must have no password key yet. An account that already has the
    /// address (one made by a third-party sign-in) gets the key; otherwise a new
    /// account with id `new_user_id` is made.
    pub fn register(
        &mut self,
        email: &str,
        name: &str,
        password: &str,
        new_user_id: u128,
        fresh_id: u128,
        now: i64,
    ) -> (r: Result<SignedIn, AppError>)
        requires
            old(self).well_formed(),
        ensures
            final(self).well_formed(),
            final(self).model() == old(self).model(),
            final(self).jwt() == old(self).jwt(),
            final(self).pending_states() == old(self).pending_states(),
            !valid_registration(name@, email@, password@) ==> r is Err && r->Err_0 is Validation
                && r->Err_0->Validation_0@ == registration_issues(name@, email@, password@),
            valid_registration(name@, email@, password@) && key_present(old(self).keys(), AuthProvider::Email, email@)
                ==> r is Err && r->Err_0 is EmailAlreadyInUse && r->Err_0->EmailAlreadyInUse_0@ == email@,
            valid_registration(name@, email@, password@) && !key_present(old(self).keys(), AuthProvider::Email, email@)
                && ((!email_in_use(old(self).users(), email@) && id_in_use(old(self).users(), new_user_id))
                    || holds_id(old(self).records(), fresh_id))
                ==> r == Err::<SignedIn, AppError>(AppError::Internal),
            valid_registration(name@, email@, password@) && !key_present(old(self).keys(), AuthProvider::Email, email@)
                && (email_in_use(old(self).users(), email@) || !id_in_use(old(self).users(), new_user_id))
                && !holds_id(old(self).records(), fresh_id)
                ==> r is Ok || (old(self).model() == CredentialModel::SignedTokenPair
                    && r == Err::<SignedIn, AppError>(AppError::Internal)),
            r is Ok ==> valid_registration(name@, email@, password@)
                && !key_present(old(self).keys(), AuthProvider::Email, email@)
                && r->Ok_0.user.email@ == email@
                && (email_in_use(old(self).users(), email@) ==> old(self).users().contains(r->Ok_0.user)
                    && final(self).users() == old(self).users())
                && (!email_in_use(old(self).users(), email@) ==> r->Ok_0.user.id == new_user_id
                    && r->Ok_0.user.name@ == name@ && !r->Ok_0.user.is_admin
                    && final(self).users() == old(self).users().push(r->Ok_0.user))
                && final(self).keys().len() == old(self).keys().len() + 1
                && final(self).keys().drop_last() == old(self).keys()
                && key_matches(final(self).keys().last(), AuthProvider::Email, email@)
                && final(self).keys().last().user_id == r->Ok_0.user.id
                && final(self).keys().last().hashed_password is Some
                && password_accepts(password@, final(self).keys().last().hashed_password->0@)
                && r->Ok_0.credential.record_id() == fresh_id
                && final(self).records() == old(self).records().push(old(self).record_at(r->Ok_0.user.id, fresh_id, now)),
            r is Err ==> final(self).users() == old(self).users() && final(self).keys() == old(self).keys()
                && final(self).records() == old(self).records(),
    {
        match validate_registration(name, email, password) {
            Ok(()) => {},
            Err(e) => return Err(e),
        }
        if self.directory.get_key(AuthProvider::Email, email).is_some() {
            return Err(AppError::EmailAlreadyInUse(email.to_owned()));
        }
        let existing = self.directory.get_user_by_email(email);
        if existing.is_none() && self.directory.get_user_by_id(new_user_id).is_some() {
            return Err(AppError::Internal);
        }
        if self.credentials.contains_id(fresh_id) {
            return Err(AppError::Internal);
        }
        assert(length_within(password@, 8, 50)) by {
            let issues = registration_issues(name@, email@, password@);
            if !length_within(password@, 8, 50) {
                assert(issues[issues.len() - 1] == FieldIssue::PasswordLength);
            }
        }
        let hashed = match hash_password(password) {
            Ok(h) => h,
            Err(_) => return Err(AppError::HashingFailure),
        };
        let account_id = match &existing {
            Some(u) => u.id,
            None => new_user_id,
        };
        let credential = match self.issue(account_id, fresh_id, now) {
            Ok(c) => c,
            Err(e) => return Err(e),
        };
        let reply = match existing {
            Some(u) => u,
            None => {
                let user = User { id: new_user_id, email: email.to_owned(), name: name.to_owned(), is_admin: false };
                let reply = User { id: new_user_id, email: user.email.clone(), name: user.name.clone(), is_admin: false };
                let created = self.directory.create_user(user);
                assert(created is Ok);
                assert(self.directory.users()[self.directory.users().len() - 1].id == new_user_id);
                reply
            },
        };
        assert(self.directory.users().contains(reply));
        let key = Key { id: email.to_owned(), provider: AuthProvider::Email, user_id: account_id, hashed_password: Some(hashed) };
        let linked = self.directory.create_key(key);
        assert(linked is Ok);
        assert(self.directory.keys().drop_last() =~= old(self).keys());
        Ok(SignedIn { user: reply, credential })
    }

    /// Changes the password of the account whose live record has this id, after
    /// checking the old password; then revokes every credential of the account
    /// and issues one fresh credential.
    pub fn change_password_for(
        &mut self,
        id: Option<u128>,
        old_password: &str,
        new_password: &str,
        fresh_id: u128,
        now: i64,
    ) -> (r: Result<SignedIn, AppError>)
        requires
            old(self).well_formed(),
        ensures
            final(self).well_formed(),
            final(self).model() == old(self).model(),
            final(self).jwt() == old(self).jwt(),
            final(self).pending_states() == old(self).pending_states(),
            final(self).users() == old(self).users(),
            old(self).password_change_verdict(id, old_password@, new_password@, fresh_id, now, r),
            r is Ok ==> id is Some && live_in(old(self).records(), id->0, now)
                && old(self).users().contains(r->Ok_0.user)
                && (exists|i: int| 0 <= i < old(self).records().len() && (#[trigger] old(self).records()[i]).id == id->0
                    && old(self).records()[i].user_id == r->Ok_0.user.id)
                && password_key_accepts(old(self).keys(), r->Ok_0.user.email@, old_password@)
                && !holds_id(old(self).records(), fresh_id)
                && final(self).keys().len() == old(self).keys().len()
                && (forall|j: int| 0 <= j < old(self).keys().len() ==> if key_matches(old(self).keys()[j], AuthProvider::Email, r->Ok_0.user.email@) {
                    (#[trigger] final(self).keys()[j]).id == old(self).keys()[j].id
                        && final(self).keys()[j].provider == old(self).keys()[j].provider
                        && final(self).keys()[j].user_id == old(self).keys()[j].user_id
                        && final(self).keys()[j].hashed_password is Some
                        && password_accepts(new_password@, final(self).keys()[j].hashed_password->0@)
                } else {
                    final(self).keys()[j] == old(self).keys()[j]
                })
                && r->Ok_0.credential.record_id() == fresh_id
                && final(self).records() == old(self).records().filter(user_is_not(r->Ok_0.user.id)).push(
                    old(self).record_at(r->Ok_0.user.id, fresh_id, now)),
            r is Err ==> final(self).keys() == old(self).keys() && final(self).records() == old(self).records()
                && (r == Err::<SignedIn, AppError>(old(self).rejection()) || r == Err::<SignedIn, AppError>(AppError::InvalidCredentials)
                    || r == Err::<SignedIn, AppError>(AppError::HashingFailure) || r == Err::<SignedIn, AppError>(AppError::Internal)),
    {
        let rec = match self.resolve_record(id, now) {
            Ok(rec) => rec,
            Err(e) => return Err(e),
        };
        proof {
            self.lemma_record_owner(rec);
        }
        let user = match self.directory.get_user_by_id(rec.user_id) {
            Some(u) => u,
            None => return Err(self.rejection_error()),
        };
        proof {
            self.lemma_user_with_id(user);
        }
        match self.check_key_password(user.email.as_str(), old_password) {
            Ok(()) => {},
            Err(e) => return Err(e),
        }
        if self.credentials.contains_id(fresh_id) {
            return Err(AppError::Internal);
        }
        let hashed = match hash_password(new_password) {
            Ok(h) => h,
            Err(_) => return Err(AppError::HashingFailure),
        };
        let credential = match self.make_credential(user.id, fresh_id, now) {
            Ok(c) => c,
            Err(e) => return Err(e),
        };
        let ghost before = self.credentials@;
        let ghost keys_before = self.directory.keys();
        let found = self.directory.update_key_password(AuthProvider::Email, user.email.as_str(), hashed);
        self.credentials.delete_all_for_user(user.id);
        proof {
            lemma_filter_keeps_absent(before, user_is_not(user.id), fresh_id);
        }
        let record = CredentialRecord { id: fresh_id, user_id: user.id, expiration: expires_at(now, self.record_max_age()) };
        let created = self.credentials.create(record);
        assert(created is Ok);
        proof {
            assert(before.contains(rec));
            let m = choose|m: int| 0 <= m < before.len() && before[m] == rec;
            assert(before[m].id == id->0 && before[m].user_id == user.id);
        }
        Ok(SignedIn { user, credential })
    }

    /// Changes the password of the account that a presented credential belongs to.
    pub fn change_password(
        &mut self,
        credential: &str,
        old_password: &str,
        new_password: &str,
        fresh_id: u128,
        now: i64,
    ) -> (r: Result<SignedIn, AppError>)
        requires
            old(self).well_formed(),
        ensures
            final(self).well_formed(),
            final(self).model() == old(self).model(),
            final(self).jwt() == old(self).jwt(),
            final(self).pending_states() == old(self).pending_states(),
            final(self).users() == old(self).users(),
            r is Ok ==> old(self).users().contains(r->Ok_0.user)
                && password_key_accepts(old(self).keys(), r->Ok_0.user.email@, old_password@)
                && r->Ok_0.credential.record_id() == fresh_id
                && final(self).records() == old(self).records().filter(user_is_not(r->Ok_0.user.id)).push(
                    old(self).record_at(r->Ok_0.user.id, fresh_id, now)),
            old(self).model() == CredentialModel::OpaqueSession
                ==> old(self).password_change_verdict(parsed_uuid(credential@), old_password@, new_password@, fresh_id, now, r),
            r is Err ==> final(self).keys() == old(self).keys() && final(self).records() == old(self).records(),
    {
        let id = self.presented_id(credential, now);
        self.change_password_for(id, old_password, new_password, fresh_id, now)
    }

    /// Binds a state value to a new authorization request, for `OAUTH_STATE_MAX_AGE` seconds.
    pub fn oauth_start(&mut self, state: String, now: i64)
        requires
            old(self).well_formed(),
        ensures
            final(self).well_formed(),
            final(self).model() == old(self).model(),
            final(self).jwt() == old(self).jwt(),
            final(self).users() == old(self).users(),
            final(self).keys() == old(self).keys(),
            final(self).records() == old(self).records(),
            final(self).pending_states() == old(self).pending_states().push(
                PendingState { state, expiration: expiry_after(now, OAUTH_STATE_MAX_AGE) }),
    {
        let expiration = expires_at(now, OAUTH_STATE_MAX_AGE);
        self.oauth_states.bind(state, expiration);
    }

    /// Accepts a callback's state only if it was bound here and has not lapsed;
    /// a state is good for one callback.
    pub fn oauth_check_state(&mut self, state: &str, now: i64) -> (r: Result<(), AppError>)
        requires
            old(self).well_formed(),
        ensures
            final(self).well_formed(),
            final(self).model() == old(self).model(),
            final(self).jwt() == old(self).jwt(),
            final(self).users() == old(self).users(),
            final(self).keys() == old(self).keys(),
            final(self).records() == old(self).records(),
            final(self).pending_states() == old(self).pending_states().filter(state_is_not(state@)),
            r is Ok <==> state_live(old(self).pending_states(), state@, now),
            r is Err ==> r == Err::<(), AppError>(AppError::OAuthStateMismatch),
    {
        if self.oauth_states.consume(state, now) {
            Ok(())
        } else {
            Err(AppError::OAuthStateMismatch)
        }
    }

    /// Signs in with a provider profile: refuses an unverified email address,
    /// resolves the account (the provider key's, else the one with the address,
    /// linking a key to it, else a new one with a key), then issues a credential.
    pub fn oauth_login(
        &mut self,
        provider: AuthProvider,
        profile: &GoogleUserInfo,
        new_user_id: u128,
        fresh_id: u128,
        now: i64,
    ) -> (r: Result<OAuthSignedIn, AppError>)
        requires
            old(self).well_formed(),
            provider != AuthProvider::Email,
        ensures
            final(self).well_formed(),
            final(self).model() == old(self).model(),
            final(self).jwt() == old(self).jwt(),
            final(self).pending_states() == old(self).pending_states(),
            !profile.email_verified ==> r == Err::<OAuthSignedIn, AppError>(AppError::EmailNotVerified),
            profile.email_verified && (holds_id(old(self).records(), fresh_id)
                || (!key_present(old(self).keys(), provider, profile.sub@) && !email_in_use(old(self).users(), profile.email@)
                    && id_in_use(old(self).users(), new_user_id)))
                ==> r == Err::<OAuthSignedIn, AppError>(AppError::Internal),
            profile.email_verified && !holds_id(old(self).records(), fresh_id)
                && (key_present(old(self).keys(), provider, profile.sub@) || email_in_use(old(self).users(), profile.email@)
                    || !id_in_use(old(self).users(), new_user_id))
                ==> r is Ok || (old(self).model() == CredentialModel::SignedTokenPair && r == Err::<OAuthSignedIn, AppError>(AppError::Internal)),
            r is Ok ==> profile.email_verified
                && r->Ok_0.user.id == oauth_account(old(self).users(), old(self).keys(), provider, *profile, new_user_id)
                && final(self).users().contains(r->Ok_0.user)
                && r->Ok_0.is_new_user == (!key_present(old(self).keys(), provider, profile.sub@) && !email_in_use(old(self).users(), profile.email@))
                && (key_present(old(self).keys(), provider, profile.sub@) ==>
                    final(self).users() == old(self).users() && final(self).keys() == old(self).keys())
                && (!key_present(old(self).keys(), provider, profile.sub@) ==>
                    final(self).keys() == old(self).keys().push(Key { id: profile.sub, provider, user_id: r->Ok_0.user.id, hashed_password: None }))
                && (!key_present(old(self).keys(), provider, profile.sub@) && email_in_use(old(self).users(), profile.email@) ==>
                    final(self).users() == old(self).users())
                && (r->Ok_0.is_new_user ==> final(self).users() == old(self).users().push(
                    User { id: new_user_id, email: profile.email, name: profile_name(*profile), is_admin: false }))
                && r->Ok_0.credential.record_id() == fresh_id
                && final(self).records() == old(self).records().push(old(self).record_at(r->Ok_0.user.id, fresh_id, now)),
            r is Err ==> final(self).users() == old(self).users() && final(self).keys() == old(self).keys()
                && final(self).records() == old(self).records(),
    {
        if !profile.email_verified {
            return Err(AppError::EmailNotVerified);
        }
        if self.credentials.contains_id(fresh_id) {
            return Err(AppError::Internal);
        }
        let linked = self.directory.get_key(provider, profile.sub.as_str());
        let by_email = self.directory.get_user_by_email(profile.email.as_str());
        match linked {
            Some(key) => {
                proof {
                    self.lemma_key_unique(key, provider, profile.sub@);
                    let keys = self.keys();
                    let j = choose|j: int| 0 <= j < keys.len() && keys[j] == key;
                    assert(id_in_use(self.users(), keys[j].user_id));
                }
                let user = match self.directory.get_user_by_id(key.user_id) {
                    Some(u) => u,
                    None => return Err(AppError::Internal),
                };
                let credential = match self.issue(user.id, fresh_id, now) {
                    Ok(c) => c,
                    Err(e) => return Err(e),
                };
                Ok(OAuthSignedIn { user, credential, is_new_user: false })
            },
            None => {
                let (user, is_new_user) = match by_email {
                    Some(u) => {
                        proof {
                            self.lemma_user_unique(u);
                        }
                        (u, false)
                    },
                    None => {
                        if self.directory.get_user_by_id(new_user_id).is_some() {
                            return Err(AppError::Internal);
                        }
                        let name = match &profile.name {
                            Some(n) => n.clone(),
                            None => profile.email.clone(),
                        };
                        (User { id: new_user_id, email: profile.email.clone(), name, is_admin: false }, true)
                    },
                };
                let credential = match self.issue(user.id, fresh_id, now) {
                    Ok(c) => c,
                    Err(e) => return Err(e),
                };
                let reply = User { id: user.id, email: user.email.clone(), name: user.name.clone(), is_admin: user.is_admin };
                if is_new_user {
                    let created = self.directory.create_user(user);
                    assert(created is Ok);
                    assert(self.directory.users()[self.directory.users().len() - 1].id == new_user_id);
                }
                assert(self.directory.users().contains(reply));
                let key = Key { id: profile.sub.clone(), provider, user_id: reply.id, hashed_password: None };
                let stored = self.directory.create_key(key);
                assert(stored is Ok);
                Ok(OAuthSignedIn { user: reply, credential, is_new_user })
            },
        }
    }

    /// Signs an account out everywhere: revokes every record of the account that
    /// a presented credential belongs to, that credential's own included.
    pub fn revoke_all(&mut self, credential: &str, now: i64) -> (r: Result<u128, AppError>)
        requires
            old(self).well_formed(),
        ensures
            final(self).well_formed(),
            final(self).model() == old(self).model(),
            final(self).jwt() == old(self).jwt(),
            final(self).users() == old(self).users(),
            final(self).keys() == old(self).keys(),
            final(self).pending_states() == old(self).pending_states(),
            r is Ok ==> (exists|i: int| 0 <= i < old(self).records().len()
                    && (#[trigger] old(self).records()[i]).user_id == r->Ok_0 && old(self).records()[i].expiration > now)
                && final(self).records() == old(self).records().filter(user_is_not(r->Ok_0)),
            old(self).model() == CredentialModel::OpaqueSession ==> (r is Ok <==> parsed_uuid(credential@) is Some
                && live_in(old(self).records(), parsed_uuid(credential@)->0, now)),
            old(self).model() == CredentialModel::OpaqueSession && r is Ok
                ==> r->Ok_0 == record_owner(old(self).records(), parsed_uuid(credential@)->0),
            r is Err ==> r == Err::<u128, AppError>(old(self).rejection()) && final(self).records() == old(self).records(),
    {
        let rec = match self.authenticate(credential, now) {
            Ok(rec) => rec,
            Err(e) => return Err(e),
        };
        proof {
            self.lemma_record_owner(rec);
        }
        self.credentials.delete_all_for_user(rec.user_id);
        Ok(rec.user_id)
    }
}

/// Filtering keeps out an id that was not there.
proof fn lemma_filter_keeps_absent(s: Seq<CredentialRecord>, pred: spec_fn(CredentialRecord) -> bool, id: u128)
    requires
        !holds_id(s, id),
    ensures
        !holds_id(s.filter(pred), id),
{
    broadcast use vstd::seq_lib::group_filter_ensures;
    if holds_id(s.filter(pred), id) {
        let i = choose|i: int| 0 <= i < s.filter(pred).len() && (#[trigger] s.filter(pred)[i]).id == id;
        assert(s.filter(pred).contains(s.filter(pred)[i]));
        s.lemma_filter_contains_rev(pred, s.filter(pred)[i]);
    }
}

} // verus!
