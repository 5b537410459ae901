//! Third-party sign-in: the state values bound to authorization requests, and
//! the profile that the identity provider returns.
use vstd::prelude::*;

verus! {

/// The profile that the identity provider returns after a code exchange.
#[derive(Debug)]
pub struct GoogleUserInfo {
    /// The provider's id of the user.
    pub sub: String,
    pub email: String,
    pub email_verified: bool,
    pub name: Option<String>,
}

/// A state value handed out with an authorization request, and when it lapses.
#[derive(Debug)]
pub struct PendingState {
    pub state: String,
    pub expiration: i64,
}

pub open spec fn state_is_not(state: Seq<char>) -> spec_fn(PendingState) -> bool {
    |p: PendingState| p.state@ != state
}

/// `pending` holds this state, not lapsed at `now`.
pub open spec fn state_live(pending: Seq<PendingState>, state: Seq<char>, now: i64) -> bool {
    exists|i: int| 0 <= i < pending.len() && (#[trigger] pending[i]).state@ == state && pending[i].expiration > now
}

/// The state values of authorization requests in flight. A callback is accepted
/// only with a state handed out here and not yet used or lapsed.
pub struct OAuthStates {
    pending: Vec<PendingState>,
}

impl View for OAuthStates {
    type V = Seq<PendingState>;

    closed spec fn view(&self) -> Seq<PendingState> {
        self.pending@
    }
}

impl OAuthStates {
    pub fn new() -> (r: OAuthStates)
        ensures
            r@ == Seq::<PendingState>::empty(),
    {
        OAuthStates { pending: Vec::new() }
    }

    /// Binds a state value to a new authorization request.
    pub fn bind(&mut self, state: String, expiration: i64)
        ensures
            final(self)@ == old(self)@.push(PendingState { state, expiration }),
    {
        self.pending.push(PendingState { state, expiration });
    }

    /// Uses up a state value: says whether it was bound and not lapsed at `now`,
    /// and forgets it either way.
    pub fn consume(&mut self, state: &str, now: i64) -> (accepted: bool)
        ensures
            accepted == state_live(old(self)@, state@, now),
            final(self)@ == old(self)@.filter(state_is_not(state@)),
    {
        let ghost s = self.pending@;
        let ghost pred = state_is_not(state@);
        let wanted = state.to_owned();
        let mut kept: Vec<PendingState> = Vec::new();
        let mut accepted = false;
        let mut i: usize = 0;
        while i < self.pending.len()
            invariant
                s == self.pending@,
                i <= s.len(),
                wanted@ == state@,
                pred == state_is_not(state@),
                kept@ == s.subrange(0, i as int).filter(pred),
                accepted == state_live(s.subrange(0, i as int), state@, now),
            decreases s.len() - i,
        {
            let p = &self.pending[i];
            proof {
                assert(s.subrange(0, i + 1) =~= s.subrange(0, i as int).push(*p));
                s.subrange(0, i as int).lemma_filter_push(*p, pred);
                let prefix = s.subrange(0, i as int);
                let next = s.subrange(0, i + 1);
                if state_live(prefix, state@, now) {
                    let k = choose|k: int| 0 <= k < prefix.len() && (#[trigger] prefix[k]).state@ == state@ && prefix[k].expiration > now;
                    assert(next[k] == prefix[k]);
                }
                if state_live(next, state@, now) && !state_live(prefix, state@, now) {
                    let k = choose|k: int| 0 <= k < next.len() && (#[trigger] next[k]).state@ == state@ && next[k].expiration > now;
                    if k < prefix.len() {
                        assert(prefix[k] == next[k]);
                    }
                }
            }
            if p.state == wanted {
                if p.expiration > now {
                    accepted = true;
                }
            } else {
                kept.push(PendingState { state: p.state.clone(), expiration: p.expiration });
            }
            proof {
                let next = s.subrange(0, i + 1);
                if p.state@ == state@ && p.expiration > now {
                    assert(next[i as int] == *p);
                }
            }
            i = i + 1;
        }
        assert(s.subrange(0, s.len() as int) =~= s);
        self.pending = kept;
        accepted
    }
}

} // verus!
