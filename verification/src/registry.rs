//! The connection registry: the set of live sessions, each under a unique
//! token.  Tokens come from a strictly increasing counter that is never
//! decremented and never reused, so a retired token can never alias a live
//! session.  Removal is idempotent.  The socket handles themselves live with
//! the event loop outside the core, keyed by these tokens.

use vstd::prelude::*;

verus! {

/// The token of the listening socket itself; never assigned to a session.
pub const LISTENER_TOKEN: u64 = 0;

/// The lifecycle of one session.  A session sits in `AwaitingMessage`
/// between readiness events; the transient states are driven by the
/// controller within one event, and `Closed` sessions leave the registry.
#[derive(Clone, Copy, Debug, PartialEq, Eq, Structural)]
pub enum SessionState {
    Established,
    AwaitingMessage,
    Dispatching,
    Replying,
    Closed,
}

/// One live session: its token and its lifecycle state.
#[derive(Clone, Copy, Debug, PartialEq, Eq, Structural)]
pub struct Session {
    pub token: u64,
    pub state: SessionState,
}

/// The registry of live sessions.
pub struct Registry {
    pub sessions: Vec<Session>,
    pub next_token: u64,
}

impl Registry {
    /// The registry's invariant: every live token was assigned below the
    /// counter, no two live sessions share a token, the listener's token is
    /// never a session's, and closed sessions do not linger.
    pub open spec fn wf(self) -> bool {
        &&& self.next_token > LISTENER_TOKEN
        &&& forall|i: int|
            0 <= i < self.sessions.len() ==> LISTENER_TOKEN < (
            #[trigger] self.sessions[i]).token < self.next_token
        &&& forall|i: int, j: int|
            0 <= i < j < self.sessions.len() ==> (#[trigger] self.sessions[i]).token != (
            #[trigger] self.sessions[j]).token
        &&& forall|i: int|
            0 <= i < self.sessions.len() ==> (#[trigger] self.sessions[i]).state
                != SessionState::Closed
    }

    /// The token is held by some live session.
    pub open spec fn is_live(self, token: u64) -> bool {
        exists|i: int| 0 <= i < self.sessions.len() && (#[trigger] self.sessions[i]).token == token
    }

    /// A fresh registry: no sessions, the counter starting just above the
    /// listener's token.
    pub fn new() -> (r: Registry)
        ensures
            r.wf(),
            r.sessions@.len() == 0,
            r.next_token == LISTENER_TOKEN + 1,
    {
        Registry { sessions: Vec::new(), next_token: LISTENER_TOKEN + 1 }
    }

    /// Accepts a new connection: registers a session under the next unused
    /// token, in the `Established` state, and advances the counter.  The
    /// token returned was live for no session before the call.
    pub fn accept(&mut self) -> (token: u64)
        requires
            old(self).wf(),
            old(self).next_token < u64::MAX,
        ensures
            final(self).wf(),
            token == old(self).next_token,
            !old(self).is_live(token),
            final(self).is_live(token),
            final(self).next_token == old(self).next_token + 1,
            final(self).sessions@ == old(self).sessions@.push(
                Session { token, state: SessionState::Established },
            ),
    {
        let token = self.next_token;
        self.sessions.push(Session { token, state: SessionState::Established });
        self.next_token = self.next_token + 1;
        proof {
            let before = old(self).sessions@;
            assert(self.sessions@[self.sessions@.len() - 1].token == token);
            assert(forall|m: int| 0 <= m < before.len() ==> self.sessions@[m] == #[trigger] before[m]);
        }
        token
    }

    /// Looks a token up.
    pub fn contains(&self, token: u64) -> (r: bool)
        ensures
            r == self.is_live(token),
    {
        let n = self.sessions.len();
        let mut i: usize = 0;
        while i < n
            invariant
                n == self.sessions@.len(),
                0 <= i <= n,
                forall|m: int| 0 <= m < i ==> (#[trigger] self.sessions@[m]).token != token,
            decreases n - i,
        {
            if self.sessions[i].token == token {
                return true;
            }
            i = i + 1;
        }
        false
    }

    /// Removes the session holding `token`, if any: idempotent, a no-op on a
    /// token that is not live.  Every other session's entry — token and
    /// state — survives verbatim, and the counter never moves, so no token
    /// is ever reissued.
    pub fn remove(&mut self, token: u64)
        requires
            old(self).wf(),
        ensures
            final(self).wf(),
            !final(self).is_live(token),
            final(self).next_token == old(self).next_token,
            forall|t: u64| t != token ==> final(self).is_live(t) == old(self).is_live(t),
            !old(self).is_live(token) ==> final(self).sessions@ == old(self).sessions@,
            old(self).is_live(token) ==> exists|i: int|
                0 <= i < old(self).sessions@.len() && (#[trigger] old(self).sessions@[i]).token
                    == token && final(self).sessions@ == old(self).sessions@.remove(i),
    {
        let n = self.sessions.len();
        let mut i: usize = 0;
        while i < n
            invariant
                old(self).wf(),
                self.sessions@ == old(self).sessions@,
                self.next_token == old(self).next_token,
                n == self.sessions@.len(),
                0 <= i <= n,
                forall|m: int| 0 <= m < i ==> (#[trigger] self.sessions@[m]).token != token,
            decreases n - i,
        {
            if self.sessions[i].token == token {
                let ghost before = self.sessions@;
                self.sessions.remove(i);
                proof {
                    before.remove_ensures(i as int);
                    assert(old(self).sessions@[i as int].token == token && self.sessions@ == old(
                        self,
                    ).sessions@.remove(i as int));
                    assert forall|t: u64| t != token implies self.is_live(t) == old(
                        self,
                    ).is_live(t) by {
                        if old(self).is_live(t) {
                            let m = choose|m: int|
                                0 <= m < before.len() && (#[trigger] before[m]).token == t;
                            if m < i {
                                assert(self.sessions@[m].token == t);
                            } else {
                                assert(self.sessions@[m - 1].token == t);
                            }
                        }
                        if self.is_live(t) {
                            let m = choose|m: int|
                                0 <= m < self.sessions@.len() && (
                                #[trigger] self.sessions@[m]).token == t;
                            if m < i {
                                assert(before[m].token == t);
                            } else {
                                assert(before[m + 1].token == t);
                            }
                        }
                    }
                    assert forall|m: int| 0 <= m < self.sessions@.len() implies (
                    #[trigger] self.sessions@[m]).token != token by {
                        if m < i {
                            assert(self.sessions@[m] == before[m]);
                        } else {
                            assert(self.sessions@[m] == before[m + 1]);
                        }
                    }
                }
                return ;
            }
            i = i + 1;
        }
    }

    /// The lifecycle state of the session holding `token`, if it is live.
    pub fn state_of(&self, token: u64) -> (r: Option<SessionState>)
        requires
            self.wf(),
        ensures
            (r is Some) == self.is_live(token),
            r matches Some(st) ==> exists|i: int|
                0 <= i < self.sessions@.len() && (#[trigger] self.sessions@[i]) == (Session {
                    token,
                    state: st,
                }),
    {
        let n = self.sessions.len();
        let mut i: usize = 0;
        while i < n
            invariant
                n == self.sessions@.len(),
                0 <= i <= n,
                forall|m: int| 0 <= m < i ==> (#[trigger] self.sessions@[m]).token != token,
            decreases n - i,
        {
            if self.sessions[i].token == token {
                return Some(self.sessions[i].state);
            }
            i = i + 1;
        }
        None
    }

    /// Records a lifecycle transition of the session holding `token`; a
    /// no-op on a token that is not live.  Never to `Closed`: a session
    /// that closes is removed instead.  Nothing else moves: no token
    /// appears, disappears, or changes hands.
    pub fn set_state(&mut self, token: u64, state: SessionState)
        requires
            old(self).wf(),
            state != SessionState::Closed,
        ensures
            final(self).wf(),
            final(self).next_token == old(self).next_token,
            final(self).sessions@.len() == old(self).sessions@.len(),
            forall|i: int|
                0 <= i < old(self).sessions@.len() ==> (#[trigger] final(self).sessions@[i]).token
                    == old(self).sessions@[i].token,
            forall|i: int|
                0 <= i < old(self).sessions@.len() && old(self).sessions@[i].token != token ==> (
                #[trigger] final(self).sessions@[i]) == old(self).sessions@[i],
            forall|i: int|
                0 <= i < old(self).sessions@.len() && old(self).sessions@[i].token == token ==> (
                #[trigger] final(self).sessions@[i]) == (Session { token, state }),
    {
        let n = self.sessions.len();
        let mut i: usize = 0;
        while i < n
            invariant
                old(self).wf(),
                self.next_token == old(self).next_token,
                n == self.sessions@.len() == old(self).sessions@.len(),
                0 <= i <= n,
                state != SessionState::Closed,
                forall|m: int|
                    0 <= m < n ==> (#[trigger] self.sessions@[m]).token == old(
                        self,
                    ).sessions@[m].token,
                forall|m: int|
                    0 <= m < n && old(self).sessions@[m].token != token ==> (
                    #[trigger] self.sessions@[m]) == old(self).sessions@[m],
                forall|m: int|
                    0 <= m < i && old(self).sessions@[m].token == token ==> (
                    #[trigger] self.sessions@[m]) == (Session { token, state }),
                forall|m: int|
                    i <= m < n ==> (#[trigger] self.sessions@[m]) == old(self).sessions@[m],
            decreases n - i,
        {
            if self.sessions[i].token == token {
                self.sessions[i] = Session { token, state };
            }
            i = i + 1;
        }
    }

    /// How many sessions are live.
    pub fn live_count(&self) -> (r: usize)
        ensures
            r == self.sessions@.len(),
    {
        self.sessions.len()
    }
}

/// The registry after an operation is exactly the registry before it.
pub open spec fn registry_unchanged(before: Registry, after: Registry) -> bool {
    &&& after.sessions@ == before.sessions@
    &&& after.next_token == before.next_token
}

/// The operation retired `token` and touched nothing else: the token is no
/// longer live, every other token's liveness is as it was, the counter did
/// not move (so the retired token is never reassigned), and the surviving
/// entries are exactly the old sequence with at most that one session
/// taken out — every other session's token and state verbatim.
pub open spec fn only_removed(before: Registry, after: Registry, token: u64) -> bool {
    &&& !after.is_live(token)
    &&& forall|t: u64| t != token ==> after.is_live(t) == before.is_live(t)
    &&& after.next_token == before.next_token
    &&& (!before.is_live(token) ==> after.sessions@ == before.sessions@)
    &&& (before.is_live(token) ==> exists|i: int|
        0 <= i < before.sessions@.len() && (#[trigger] before.sessions@[i]).token == token
            && after.sessions@ == before.sessions@.remove(i))
}

/// Closing one session leaves every other session fully intact: retiring
/// token `a` cannot disturb a session under a different token `b` — it
/// stays live, and its entry (token and state) survives verbatim.
pub proof fn lemma_close_isolates(before: Registry, after: Registry, a: u64, b: u64)
    requires
        only_removed(before, after, a),
        b != a,
        before.is_live(b),
    ensures
        after.is_live(b),
        forall|j: int|
            0 <= j < before.sessions@.len() && (#[trigger] before.sessions@[j]).token == b
                ==> after.sessions@.contains(before.sessions@[j]),
{
    if before.is_live(a) {
        let i = choose|i: int|
            0 <= i < before.sessions@.len() && (#[trigger] before.sessions@[i]).token == a
                && after.sessions@ == before.sessions@.remove(i);
        before.sessions@.remove_ensures(i);
        assert forall|j: int|
            0 <= j < before.sessions@.len() && (#[trigger] before.sessions@[j]).token == b
                implies after.sessions@.contains(before.sessions@[j]) by {
            if j < i {
                assert(after.sessions@[j] == before.sessions@[j]);
            } else {
                assert(after.sessions@[j - 1] == before.sessions@[j]);
            }
        }
    } else {
        assert forall|j: int|
            0 <= j < before.sessions@.len() && (#[trigger] before.sessions@[j]).token == b
                implies after.sessions@.contains(before.sessions@[j]) by {
            assert(after.sessions@[j] == before.sessions@[j]);
        }
    }
}

/// Token uniqueness: in a well-formed registry, no two simultaneously live
/// sessions ever share a token, whatever sequence of accepts and removals
/// built it.
pub proof fn lemma_live_tokens_distinct(r: Registry, i: int, j: int)
    requires
        r.wf(),
        0 <= i < r.sessions.len(),
        0 <= j < r.sessions.len(),
        i != j,
    ensures
        r.sessions[i].token != r.sessions[j].token,
{
}

/// Token freshness: a well-formed registry never holds a token at or above
/// the counter, so the token the next accept assigns is live for nobody.
pub proof fn lemma_next_token_fresh(r: Registry, t: u64)
    requires
        r.wf(),
        t >= r.next_token,
    ensures
        !r.is_live(t),
{
}

} // verus!
