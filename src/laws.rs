//! What holds across the flows, stated over the models that their contracts use.
use vstd::prelude::*;
use crate::directory::{directory_invariant, email_in_use, key_matches, key_present, AuthProvider, Key, User};
use crate::oauth::GoogleUserInfo;
use crate::password::password_accepts;
use crate::service::{linked_user, login_accepts, oauth_account, refresh_accepts};
use crate::store::{holds_id, id_is_not, unique_ids, user_is_not, CredentialRecord};
use crate::token::AccessTokenClaims;

verus! {

broadcast use vstd::seq_lib::group_filter_ensures;

/// After a registration of `email` with `password` (a password key for the
/// address appended to a directory that had none, and an account with the
/// address), `login` with `email` and `password` succeeds, and `login` with any
/// password succeeds exactly when the stored hash accepts that password.
pub proof fn lemma_register_then_login(
    users: Seq<User>,
    keys: Seq<Key>,
    users_after: Seq<User>,
    keys_after: Seq<Key>,
    email: Seq<char>,
    password: Seq<char>,
    other: Seq<char>,
)
    requires
        !key_present(keys, AuthProvider::Email, email),
        email_in_use(users_after, email),
        keys_after.len() == keys.len() + 1,
        keys_after.drop_last() == keys,
        key_matches(keys_after.last(), AuthProvider::Email, email),
        keys_after.last().hashed_password is Some,
        password_accepts(password, keys_after.last().hashed_password->0@),
    ensures
        login_accepts(users_after, keys_after, email, password),
        login_accepts(users_after, keys_after, email, other)
            <==> password_accepts(other, keys_after.last().hashed_password->0@),
{
    let n = keys.len() as int;
    assert(key_matches(keys_after[n], AuthProvider::Email, email));
    assert forall|i: int| 0 <= i < keys_after.len() && key_matches(#[trigger] keys_after[i], AuthProvider::Email, email)
        implies i == n by {
        if i < n {
            assert(keys_after[i] == keys[i]);
        }
    }
}

/// The records left after revoking family `token_id`, and revoking it again
/// `times` more times.
pub open spec fn revoked_again(records: Seq<CredentialRecord>, token_id: u128, times: nat) -> Seq<CredentialRecord>
    decreases times,
{
    if times == 0 {
        records.filter(id_is_not(token_id))
    } else {
        revoked_again(records, token_id, (times - 1) as nat).filter(id_is_not(token_id))
    }
}

proof fn lemma_revoked_again_lacks(records: Seq<CredentialRecord>, token_id: u128, times: nat)
    ensures
        !holds_id(revoked_again(records, token_id, times), token_id),
    decreases times,
{
    let s = if times == 0 { records } else { revoked_again(records, token_id, (times - 1) as nat) };
    let f = s.filter(id_is_not(token_id));
    if holds_id(f, token_id) {
        let i = choose|i: int| 0 <= i < f.len() && (#[trigger] f[i]).id == token_id;
        s.lemma_filter_pred(id_is_not(token_id), i);
    }
    if times > 0 {
        lemma_revoked_again_lacks(records, token_id, (times - 1) as nat);
    }
}

/// Revocation is terminal: once family `token_id` is revoked, a refresh token of
/// that family is refused, however many more times the family is revoked.
pub proof fn lemma_revoke_is_terminal(
    records: Seq<CredentialRecord>,
    token_id: u128,
    claims: AccessTokenClaims,
    now: i64,
    times: nat,
)
    requires
        claims.token_id == token_id,
    ensures
        !refresh_accepts(records.filter(id_is_not(token_id)), claims, now),
        !refresh_accepts(revoked_again(records, token_id, times), claims, now),
{
    lemma_revoked_again_lacks(records, token_id, 0);
    lemma_revoked_again_lacks(records, token_id, times);
}

/// A password change invalidates history: after the account's records are
/// revoked and the fresh family `fresh` is recorded, a refresh token of an
/// earlier family `earlier` of the account is refused, and one of `fresh` that
/// has not expired is accepted while `fresh` lives.
pub proof fn lemma_password_change_invalidates(
    records: Seq<CredentialRecord>,
    user_id: u128,
    earlier: AccessTokenClaims,
    fresh: CredentialRecord,
    current: AccessTokenClaims,
    now: i64,
)
    requires
        unique_ids(records),
        exists|i: int| 0 <= i < records.len() && (#[trigger] records[i]).id == earlier.token_id && records[i].user_id == user_id,
        !holds_id(records, fresh.id),
        fresh.user_id == user_id,
        current.token_id == fresh.id,
        current.exp > now,
        fresh.expiration > now,
    ensures
        !refresh_accepts(records.filter(user_is_not(user_id)).push(fresh), earlier, now),
        refresh_accepts(records.filter(user_is_not(user_id)).push(fresh), current, now),
{
    let f = records.filter(user_is_not(user_id));
    let after = f.push(fresh);
    let a = choose|i: int| 0 <= i < records.len() && (#[trigger] records[i]).id == earlier.token_id && records[i].user_id == user_id;
    assert(earlier.token_id != fresh.id);
    if refresh_accepts(after, earlier, now) {
        let i = choose|i: int| 0 <= i < after.len() && (#[trigger] after[i]).id == earlier.token_id && after[i].expiration > now;
        assert(i < f.len());
        assert(after[i] == f[i]);
        records.lemma_filter_pred(user_is_not(user_id), i);
        assert(f.contains(f[i]));
        records.lemma_filter_contains_rev(user_is_not(user_id), f[i]);
        let j = choose|j: int| 0 <= j < records.len() && records[j] == f[i];
        assert(records[j].id == records[a].id);
    }
    assert(after[f.len() as int] == fresh);
}

/// An expired refresh token is refused, whatever the records hold.
pub proof fn lemma_expired_refresh_refused(records: Seq<CredentialRecord>, claims: AccessTokenClaims, now: i64)
    requires
        claims.exp <= now,
    ensures
        !refresh_accepts(records, claims, now),
{
}

/// Third-party linking is idempotent: after a sign-in with a profile, a second
/// sign-in with a profile of the same provider user resolves to the same account,
/// and is not a new account.
pub proof fn lemma_oauth_linking_idempotent(
    users: Seq<User>,
    keys: Seq<Key>,
    users_after: Seq<User>,
    keys_after: Seq<Key>,
    provider: AuthProvider,
    first: GoogleUserInfo,
    second: GoogleUserInfo,
    first_new_id: u128,
    second_new_id: u128,
)
    requires
        directory_invariant(users, keys),
        directory_invariant(users_after, keys_after),
        first.sub@ == second.sub@,
        key_present(keys, provider, first.sub@) ==> keys_after == keys,
        !key_present(keys, provider, first.sub@) ==> keys_after == keys.push(
            Key { id: first.sub, provider, user_id: oauth_account(users, keys, provider, first, first_new_id), hashed_password: None }),
    ensures
        key_present(keys_after, provider, second.sub@),
        oauth_account(users_after, keys_after, provider, second, second_new_id)
            == oauth_account(users, keys, provider, first, first_new_id),
{
    if !key_present(keys, provider, first.sub@) {
        let n = keys.len() as int;
        assert(key_matches(keys_after[n], provider, first.sub@));
        let c = choose|i: int| 0 <= i < keys_after.len() && key_matches(#[trigger] keys_after[i], provider, second.sub@);
        if c != n {
            assert(keys_after[c] == keys[c]);
        }
        assert(linked_user(keys_after, provider, second.sub@) == keys_after[n].user_id);
    }
}

} // verus!
