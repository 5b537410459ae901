//! Server-side registries of issued credentials: token families (the revocation
//! store) and opaque sessions share one record shape and one store.
use vstd::prelude::*;

verus! {

/// One issued credential: a token family or an opaque session.
#[derive(Debug, Clone, Copy, PartialEq, Eq, Structural)]
pub struct CredentialRecord {
    /// The token family id, or the session id.
    pub id: u128,
    /// The account that owns the credential.
    pub user_id: u128,
    /// Unix time, in seconds, from which the credential is no longer accepted.
    pub expiration: i64,
}

/// The opaque-session model stores whole credentials of the same shape.
pub type Session = CredentialRecord;

/// Why a record could not be stored.
#[derive(Debug, Clone, Copy, PartialEq, Eq, Structural)]
pub enum StoreError {
    /// A record with this id is already stored.
    DuplicateId,
}

/// `s` holds a record with this id.
pub open spec fn holds_id(s: Seq<CredentialRecord>, id: u128) -> bool {
    exists|i: int| 0 <= i < s.len() && (#[trigger] s[i]).id == id
}

/// `s` holds a record with this id that has not expired at `now`.
pub open spec fn live_in(s: Seq<CredentialRecord>, id: u128, now: i64) -> bool {
    exists|i: int| 0 <= i < s.len() && (#[trigger] s[i]).id == id && s[i].expiration > now
}

/// No two records of `s` share an id.
pub open spec fn unique_ids(s: Seq<CredentialRecord>) -> bool {
    forall|i: int, j: int| 0 <= i < s.len() && 0 <= j < s.len() && i != j ==> (#[trigger] s[i]).id != (#[trigger] s[j]).id
}

pub open spec fn id_is_not(id: u128) -> spec_fn(CredentialRecord) -> bool {
    |r: CredentialRecord| r.id != id
}

pub open spec fn user_is_not(user_id: u128) -> spec_fn(CredentialRecord) -> bool {
    |r: CredentialRecord| r.user_id != user_id
}

/// A registry of issued credentials, keyed by id.
pub struct CredentialStore {
    records: Vec<CredentialRecord>,
}

impl View for CredentialStore {
    type V = Seq<CredentialRecord>;

    closed spec fn view(&self) -> Seq<CredentialRecord> {
        self.records@
    }
}

impl CredentialStore {
    pub open spec fn well_formed(&self) -> bool {
        unique_ids(self@)
    }

    pub fn new() -> (r: CredentialStore)
        ensures
            r.well_formed(),
            r@ == Seq::<CredentialRecord>::empty(),
    {
        CredentialStore { records: Vec::new() }
    }

    /// The number of records held, expired ones included.
    pub fn len(&self) -> (r: usize)
        ensures
            r == self@.len(),
    {
        self.records.len()
    }

    fn position(&self, id: u128) -> (r: Option<usize>)
        requires
            self.well_formed(),
        ensures
            r is None <==> !holds_id(self@, id),
            r is Some ==> r->0 < self@.len() && self@[r->0 as int].id == id,
    {
        let mut i: usize = 0;
        while i < self.records.len()
            invariant
                i <= self@.len(),
                forall|k: int| 0 <= k < i ==> (#[trigger] self@[k]).id != id,
            decreases self@.len() - i,
        {
            if self.records[i].id == id {
                return Some(i);
            }
            i = i + 1;
        }
        None
    }

    /// Stores a new record; fails if its id is already stored.
    pub fn create(&mut self, record: CredentialRecord) -> (r: Result<(), StoreError>)
        requires
            old(self).well_formed(),
        ensures
            final(self).well_formed(),
            r is Err <==> holds_id(old(self)@, record.id),
            r is Ok ==> final(self)@ == old(self)@.push(record),
            r is Err ==> final(self)@ == old(self)@,
    {
        match self.position(record.id) {
            Some(_) => Err(StoreError::DuplicateId),
            None => {
                self.records.push(record);
                proof {
                    let s = self@;
                    assert forall|i: int, j: int| 0 <= i < s.len() && 0 <= j < s.len() && i != j
                        implies (#[trigger] s[i]).id != (#[trigger] s[j]).id by {
                        if i == s.len() - 1 {
                            assert(old(self)@[j] == s[j]);
                        } else if j == s.len() - 1 {
                            assert(old(self)@[i] == s[i]);
                        } else {
                            assert(old(self)@[i] == s[i] && old(self)@[j] == s[j]);
                        }
                    }
                }
                Ok(())
            },
        }
    }

    /// A record with this id is stored, expired or not.
    pub fn contains_id(&self, id: u128) -> (r: bool)
        requires
            self.well_formed(),
        ensures
            r == holds_id(self@, id),
    {
        self.position(id).is_some()
    }

    /// The record with this id, if one is stored and has not expired at `now`.
    pub fn lookup_valid(&self, id: u128, now: i64) -> (r: Option<CredentialRecord>)
        requires
            self.well_formed(),
        ensures
            r is Some <==> live_in(self@, id, now),
            r is Some ==> self@.contains(r->0) && r->0.id == id && r->0.expiration > now,
    {
        match self.position(id) {
            None => None,
            Some(i) => {
                let rec = self.records[i];
                if rec.expiration > now {
                    Some(rec)
                } else {
                    proof {
                        assert forall|k: int| 0 <= k < self@.len() && (#[trigger] self@[k]).id == id
                            implies self@[k].expiration <= now by {
                            if k != i {
                                assert(self@[k].id != self@[i as int].id);
                            }
                        }
                    }
                    None
                }
            },
        }
    }

    /// A stored record with this id has not expired at `now`.
    pub fn is_valid(&self, id: u128, now: i64) -> (r: bool)
        requires
            self.well_formed(),
        ensures
            r == live_in(self@, id, now),
    {
        self.lookup_valid(id, now).is_some()
    }

    /// Removes the records with this id (or, `by_user`, of this account), keeping the order of the rest.
    fn retain_where(&mut self, id: u128, by_user: bool) -> (removed: bool)
        requires
            old(self).well_formed(),
        ensures
            final(self).well_formed(),
            !by_user ==> final(self)@ == old(self)@.filter(id_is_not(id)),
            by_user ==> final(self)@ == old(self)@.filter(user_is_not(id)),
            removed == (final(self)@.len() < old(self)@.len()),
    {
        let ghost pred = if by_user { user_is_not(id) } else { id_is_not(id) };
        let ghost s = self@;
        let mut kept: Vec<CredentialRecord> = Vec::new();
        let mut i: usize = 0;
        broadcast use vstd::seq_lib::group_filter_ensures;
        while i < self.records.len()
            invariant
                s == self@,
                i <= s.len(),
                kept@ == s.subrange(0, i as int).filter(pred),
                pred == (if by_user { user_is_not(id) } else { id_is_not(id) }),
                unique_ids(s),
                unique_ids(kept@),
                forall|k: int| 0 <= k < kept@.len() ==> exists|j: int| 0 <= j < i && s[j] == #[trigger] kept@[k],
            decreases s.len() - i,
        {
            let rec = self.records[i];
            assert(s.subrange(0, i + 1) =~= s.subrange(0, i as int).push(rec));
            proof {
                s.subrange(0, i as int).lemma_filter_push(rec, pred);
            }
            if (by_user && rec.user_id != id) || (!by_user && rec.id != id) {
                let ghost before = kept@;
                kept.push(rec);
                proof {
                    assert forall|a: int, b: int| 0 <= a < kept@.len() && 0 <= b < kept@.len() && a != b
                        implies (#[trigger] kept@[a]).id != (#[trigger] kept@[b]).id by {
                        if a == before.len() {
                            assert(before[b] == kept@[b]);
                            let j = choose|j: int| 0 <= j < i && s[j] == #[trigger] before[b];
                            assert(s[j].id != s[i as int].id);
                        } else if b == before.len() {
                            assert(before[a] == kept@[a]);
                            let j = choose|j: int| 0 <= j < i && s[j] == #[trigger] before[a];
                            assert(s[j].id != s[i as int].id);
                        } else {
                            assert(before[a] == kept@[a] && before[b] == kept@[b]);
                        }
                    }
                    assert forall|k: int| 0 <= k < kept@.len() implies exists|j: int| 0 <= j < i + 1 && s[j] == #[trigger] kept@[k] by {
                        if k == before.len() {
                            assert(s[i as int] == kept@[k]);
                        } else {
                            assert(before[k] == kept@[k]);
                            let j = choose|j: int| 0 <= j < i && s[j] == #[trigger] before[k];
                        }
                    }
                }
            }
            i = i + 1;
        }
        assert(s.subrange(0, s.len() as int) =~= s);
        let removed = kept.len() < self.records.len();
        self.records = kept;
        removed
    }

    /// Removes the record with this id; says whether one was stored.
    pub fn delete(&mut self, id: u128) -> (removed: bool)
        requires
            old(self).well_formed(),
        ensures
            final(self).well_formed(),
            final(self)@ == old(self)@.filter(id_is_not(id)),
            removed == holds_id(old(self)@, id),
    {
        let removed = self.retain_where(id, false);
        proof {
            lemma_filter_shrinks_iff(old(self)@, id_is_not(id));
        }
        removed
    }

    /// Removes every record of this account.
    pub fn delete_all_for_user(&mut self, user_id: u128)
        requires
            old(self).well_formed(),
        ensures
            final(self).well_formed(),
            final(self)@ == old(self)@.filter(user_is_not(user_id)),
    {
        self.retain_where(user_id, true);
    }
}

/// Filtering drops an element exactly when some element fails the predicate.
proof fn lemma_filter_shrinks_iff(s: Seq<CredentialRecord>, pred: spec_fn(CredentialRecord) -> bool)
    ensures
        s.filter(pred).len() < s.len() <==> exists|i: int| 0 <= i < s.len() && !pred(#[trigger] s[i]),
    decreases s.len(),
{
    reveal(Seq::filter);
    broadcast use vstd::seq_lib::group_filter_ensures;
    if s.len() > 0 {
        lemma_filter_shrinks_iff(s.drop_last(), pred);
        if exists|i: int| 0 <= i < s.drop_last().len() && !pred(#[trigger] s.drop_last()[i]) {
            let i = choose|i: int| 0 <= i < s.drop_last().len() && !pred(#[trigger] s.drop_last()[i]);
            assert(!pred(s[i]));
        }
        if exists|i: int| 0 <= i < s.len() && !pred(#[trigger] s[i]) {
            let i = choose|i: int| 0 <= i < s.len() && !pred(#[trigger] s[i]);
            if i < s.len() - 1 {
                assert(s.drop_last()[i] == s[i]);
            }
        }
    }
}

} // verus!
