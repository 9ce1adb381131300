//! The Steam-ticket cache and the web session-token store.
//!
//! Both are models of cache-store keys with expiry times. A ticket hit is
//! answered from the cache alone — the Steam endpoint is only consulted on
//! a miss, which is what keeps repeated requests within one play session
//! down to a single upstream call. Session tokens are 24 random
//! alphanumerics with a 21-day expiry that refreshes on every read.

use vstd::prelude::*;
use rand::RngExt;
use crate::modifiers::is_alnum;

verus! {

/// Ticket cache entries live this long: eight hours.
pub const TICKET_TTL_SECS: i64 = 28800;

/// Session tokens live this long: twenty-one days.
pub const SESSION_TTL_SECS: i64 = 1814400;

/// One cached ticket validation.
#[derive(Clone, Debug)]
pub struct TicketEntry {
    pub ticket: String,
    pub steam_id: u64,
    pub expires_at: i64,
}

/// The memoised results of Steam ticket validation.
#[derive(Clone, Debug)]
pub struct TicketCache {
    pub entries: Vec<TicketEntry>,
}

/// What the ticket verifier does next: answer from the cache, or ask Steam.
#[derive(Clone, Copy, Debug, PartialEq, Eq, Structural)]
pub enum TicketStep {
    Cached(u64),
    NeedsSteam,
}

impl TicketCache {
    pub open spec fn wf(self) -> bool {
        forall|i: int, j: int|
            0 <= i < j < self.entries@.len() ==> (#[trigger] self.entries@[i]).ticket@ != (
            #[trigger] self.entries@[j]).ticket@
    }

    /// Is this ticket cached and unexpired at time `now`?
    pub open spec fn has_live(self, t: Seq<char>, now: int) -> bool {
        exists|i: int|
            0 <= i < self.entries@.len() && (#[trigger] self.entries@[i]).ticket@ == t
                && now < self.entries@[i].expires_at
    }

    /// The cached identity for a live ticket. Meaningful only where
    /// `has_live` holds.
    pub open spec fn live_id(self, t: Seq<char>, now: int) -> u64 {
        self.entries@[choose|i: int|
            0 <= i < self.entries@.len() && (#[trigger] self.entries@[i]).ticket@ == t
                && now < self.entries@[i].expires_at].steam_id
    }

    pub fn new() -> (r: TicketCache)
        ensures
            r.wf(),
            r.entries@.len() == 0,
    {
        TicketCache { entries: Vec::new() }
    }

    /// Decides a ticket validation: a live cached ticket is answered
    /// outright — Steam is consulted only on a miss. This is the
    /// containment guarantee: while a ticket stays cached, no request for
    /// it reaches Steam.
    #[verifier::loop_isolation(false)]
    pub fn ticket_auth_step(&self, ticket: &String, now: i64) -> (r: TicketStep)
        requires
            self.wf(),
        ensures
            self.has_live(ticket@, now as int) ==> (r matches TicketStep::Cached(v) && v
                == self.live_id(ticket@, now as int)),
            !self.has_live(ticket@, now as int) ==> r == TicketStep::NeedsSteam,
    {
        let mut i: usize = 0;
        while i < self.entries.len()
            invariant
                i <= self.entries@.len(),
                forall|j: int|
                    0 <= j < i ==> !((#[trigger] self.entries@[j]).ticket@ == ticket@ && (
                    now as int) < self.entries@[j].expires_at),
            decreases self.entries@.len() - i,
        {
            if self.entries[i].ticket == *ticket && now < self.entries[i].expires_at {
                proof {
                    let ii = i as int;
                    assert(self.has_live(ticket@, now as int));
                    let c = choose|c: int|
                        0 <= c < self.entries@.len() && (#[trigger] self.entries@[c]).ticket@
                            == ticket@ && (now as int) < self.entries@[c].expires_at;
                    if c != ii {
                        assert(self.entries@[c].ticket@ != self.entries@[ii].ticket@);
                    }
                }
                return TicketStep::Cached(self.entries[i].steam_id);
            }
            i = i + 1;
        }
        TicketStep::NeedsSteam
    }

    /// Caches a successful Steam validation for eight hours. A validation
    /// failure is never cached.
    #[verifier::loop_isolation(false)]
    pub fn store_ticket(&mut self, ticket: String, steam_id: u64, now: i64)
        requires
            old(self).wf(),
            now <= i64::MAX - TICKET_TTL_SECS,
        ensures
            final(self).wf(),
            final(self).has_live(ticket@, now as int),
            // the whole cache window is covered, not only the store instant
            forall|n2: int|
                now <= n2 < now + TICKET_TTL_SECS ==> final(self).has_live(ticket@, n2),
            final(self).live_id(ticket@, now as int) == steam_id,
            forall|t2: Seq<char>, n2: int|
                t2 != ticket@ ==> (final(self).has_live(t2, n2) <==> old(self).has_live(t2, n2)),
            forall|t2: Seq<char>, n2: int|
                t2 != ticket@ && old(self).has_live(t2, n2) ==> final(self).live_id(t2, n2)
                    == old(self).live_id(t2, n2),
    {
        let mut i: usize = 0;
        let n = self.entries.len();
        while i < n
            invariant
                i <= n == self.entries@.len(),
                *self == *old(self),
                forall|j: int| 0 <= j < i ==> (#[trigger] self.entries@[j]).ticket@ != ticket@,
            decreases n - i,
        {
            if self.entries[i].ticket == ticket {
                let ghost pre = *self;
                self.entries[i] = TicketEntry {
                    ticket,
                    steam_id,
                    expires_at: now + TICKET_TTL_SECS,
                };
                proof {
                    let ii = i as int;
                    assert(self.has_live(ticket@, now as int)) by {
                        assert(self.entries@[ii].ticket@ == ticket@);
                    }
                    assert forall|n2: int|
                        now <= n2 < now + TICKET_TTL_SECS implies self.has_live(ticket@, n2) by {
                        assert(self.entries@[ii].ticket@ == ticket@ && n2
                            < self.entries@[ii].expires_at);
                    }
                    assert(self.live_id(ticket@, now as int) == steam_id) by {
                        let c = choose|c: int|
                            0 <= c < self.entries@.len() && (#[trigger] self.entries@[c]).ticket@
                                == ticket@ && (now as int) < self.entries@[c].expires_at;
                        if c != ii {
                            assert(pre.entries@[c].ticket@ == ticket@);
                            assert(pre.entries@[ii].ticket@ == ticket@);
                            if c < ii {
                                assert(pre.entries@[c].ticket@ != pre.entries@[ii].ticket@);
                            } else {
                                assert(pre.entries@[ii].ticket@ != pre.entries@[c].ticket@);
                            }
                        }
                    }
                    assert forall|t2: Seq<char>, n2: int| t2 != ticket@ implies (self.has_live(
                        t2,
                        n2,
                    ) <==> pre.has_live(t2, n2)) by {
                        if self.has_live(t2, n2) {
                            let c = choose|c: int|
                                0 <= c < self.entries@.len() && (
                                #[trigger] self.entries@[c]).ticket@ == t2 && n2
                                    < self.entries@[c].expires_at;
                            assert(c != ii);
                            assert(pre.entries@[c].ticket@ == t2);
                        }
                        if pre.has_live(t2, n2) {
                            let c = choose|c: int|
                                0 <= c < pre.entries@.len() && (
                                #[trigger] pre.entries@[c]).ticket@ == t2 && n2
                                    < pre.entries@[c].expires_at;
                            assert(c != ii);
                            assert(self.entries@[c].ticket@ == t2);
                        }
                    }
                    assert forall|t2: Seq<char>, n2: int|
                        t2 != ticket@ && pre.has_live(t2, n2) implies self.live_id(t2, n2)
                        == pre.live_id(t2, n2) by {
                        let c = choose|c: int|
                            0 <= c < self.entries@.len() && (#[trigger] self.entries@[c]).ticket@
                                == t2 && n2 < self.entries@[c].expires_at;
                        let d = choose|d: int|
                            0 <= d < pre.entries@.len() && (#[trigger] pre.entries@[d]).ticket@
                                == t2 && n2 < pre.entries@[d].expires_at;
                        assert(c != ii && d != ii);
                        assert(pre.entries@[c].ticket@ == t2);
                        assert(pre.entries@[d].ticket@ == t2);
                        if c < d {
                            assert(pre.entries@[c].ticket@ != pre.entries@[d].ticket@);
                        } else if d < c {
                            assert(pre.entries@[d].ticket@ != pre.entries@[c].ticket@);
                        }
                    }
                }
                return ;
            }
            i = i + 1;
        }
        let ghost pre = *self;
        let ghost nn = self.entries@.len();
        self.entries.push(TicketEntry { ticket, steam_id, expires_at: now + TICKET_TTL_SECS });
        proof {
            assert(self.wf()) by {
                assert forall|x: int, y: int|
                    0 <= x < y < self.entries@.len() implies (
                #[trigger] self.entries@[x]).ticket@ != (#[trigger] self.entries@[y]).ticket@ by {
                    if y == nn {
                        assert(self.entries@[x] == pre.entries@[x]);
                        assert(pre.entries@[x].ticket@ != ticket@);
                        assert(self.entries@[y].ticket@ == ticket@);
                    } else {
                        assert(self.entries@[x] == pre.entries@[x]);
                        assert(self.entries@[y] == pre.entries@[y]);
                        assert(pre.entries@[x].ticket@ != pre.entries@[y].ticket@);
                    }
                }
            }
            assert(self.entries@[nn as int].ticket@ == ticket@);
            assert(self.has_live(ticket@, now as int));
            assert forall|n2: int|
                now <= n2 < now + TICKET_TTL_SECS implies self.has_live(ticket@, n2) by {
                assert(self.entries@[nn as int].ticket@ == ticket@ && n2
                    < self.entries@[nn as int].expires_at);
            }
            assert(self.live_id(ticket@, now as int) == steam_id) by {
                let c = choose|c: int|
                    0 <= c < self.entries@.len() && (#[trigger] self.entries@[c]).ticket@
                        == ticket@ && (now as int) < self.entries@[c].expires_at;
                if c != nn {
                    assert(pre.entries@[c].ticket@ != ticket@);
                }
            }
            assert forall|t2: Seq<char>, n2: int| t2 != ticket@ implies (self.has_live(t2, n2)
                <==> pre.has_live(t2, n2)) by {
                if self.has_live(t2, n2) {
                    let c = choose|c: int|
                        0 <= c < self.entries@.len() && (#[trigger] self.entries@[c]).ticket@
                            == t2 && n2 < self.entries@[c].expires_at;
                    assert(c != nn);
                    assert(pre.entries@[c].ticket@ == t2);
                }
                if pre.has_live(t2, n2) {
                    let c = choose|c: int|
                        0 <= c < pre.entries@.len() && (#[trigger] pre.entries@[c]).ticket@ == t2
                            && n2 < pre.entries@[c].expires_at;
                    assert(self.entries@[c].ticket@ == t2);
                }
            }
            assert forall|t2: Seq<char>, n2: int|
                t2 != ticket@ && pre.has_live(t2, n2) implies self.live_id(t2, n2) == pre.live_id(
                t2,
                n2,
            ) by {
                let c = choose|c: int|
                    0 <= c < self.entries@.len() && (#[trigger] self.entries@[c]).ticket@ == t2
                        && n2 < self.entries@[c].expires_at;
                let d = choose|d: int|
                    0 <= d < pre.entries@.len() && (#[trigger] pre.entries@[d]).ticket@ == t2
                        && n2 < pre.entries@[d].expires_at;
                assert(c != nn);
                assert(pre.entries@[c].ticket@ == t2);
                assert(pre.entries@[d].ticket@ == t2);
                if c < d {
                    assert(pre.entries@[c].ticket@ != pre.entries@[d].ticket@);
                } else if d < c {
                    assert(pre.entries@[d].ticket@ != pre.entries@[c].ticket@);
                }
            }
        }
    }
}

/// Ticket-cache containment: once a successful validation is stored, every
/// request with that ticket inside the cache window is answered from the
/// cache — by `ticket_auth_step`'s contract, none of them needs Steam.
pub proof fn lemma_ticket_single_flight(cache: TicketCache, t: Seq<char>, now: int, later: int)
    requires
        cache.wf(),
        cache.has_live(t, now),
        now <= later,
        later < cache.entries@[choose|i: int|
            0 <= i < cache.entries@.len() && (#[trigger] cache.entries@[i]).ticket@ == t && now
                < cache.entries@[i].expires_at].expires_at,
    ensures
        cache.has_live(t, later),
{
    let i = choose|i: int|
        0 <= i < cache.entries@.len() && (#[trigger] cache.entries@[i]).ticket@ == t && now
            < cache.entries@[i].expires_at;
    assert(cache.entries@[i].ticket@ == t && later < cache.entries@[i].expires_at);
}

/// One stored web session.
#[derive(Clone, Debug)]
pub struct SessionEntry {
    pub token: String,
    pub player_id: i32,
    pub expires_at: i64,
}

/// The session-token store.
#[derive(Clone, Debug)]
pub struct SessionStore {
    pub entries: Vec<SessionEntry>,
}

/// Relies on `rand::rng` sampled through `rand::distr::Alphanumeric`:
/// exactly 24 characters, each an ASCII letter or digit. Nothing else can
/// be promised of a random draw.
#[verifier::external_body]
pub fn random_token() -> (r: String)
    ensures
        r@.len() == 24,
        forall|i: int| 0 <= i < 24 ==> is_alnum(#[trigger] r@[i]),
{
    rand::rng().sample_iter(&rand::distr::Alphanumeric).take(24).map(char::from).collect()
}

impl SessionStore {
    pub open spec fn wf(self) -> bool {
        forall|i: int, j: int|
            0 <= i < j < self.entries@.len() ==> (#[trigger] self.entries@[i]).token@ != (
            #[trigger] self.entries@[j]).token@
    }

    /// Is this token a live session at time `now`?
    pub open spec fn has_session(self, tok: Seq<char>, now: int) -> bool {
        exists|i: int|
            0 <= i < self.entries@.len() && (#[trigger] self.entries@[i]).token@ == tok && now
                < self.entries@[i].expires_at
    }

    pub fn new() -> (r: SessionStore)
        ensures
            r.wf(),
            r.entries@.len() == 0,
    {
        SessionStore { entries: Vec::new() }
    }

    /// Issues a fresh random session token for the player, valid for the
    /// session lifetime from `now`.
    #[verifier::loop_isolation(false)]
    pub fn create_session(&mut self, player_id: i32, now: i64) -> (tok: String)
        requires
            old(self).wf(),
            now <= i64::MAX - SESSION_TTL_SECS,
        ensures
            final(self).wf(),
            tok@.len() == 24,
            forall|k: int| 0 <= k < 24 ==> is_alnum(#[trigger] tok@[k]),
            final(self).has_session(tok@, now as int),
            forall|n2: int|
                now <= n2 < now + SESSION_TTL_SECS ==> final(self).has_session(tok@, n2),
            exists|i: int|
                {
                    &&& 0 <= i < final(self).entries@.len()
                    &&& (#[trigger] final(self).entries@[i]).token@ == tok@
                    &&& final(self).entries@[i].player_id == player_id
                    &&& final(self).entries@[i].expires_at == now + SESSION_TTL_SECS
                },
    {
        let tok = random_token();
        let mut i: usize = 0;
        let n = self.entries.len();
        while i < n
            invariant
                i <= n == self.entries@.len(),
                *self == *old(self),
                self.wf(),
                forall|j: int| 0 <= j < i ==> (#[trigger] self.entries@[j]).token@ != tok@,
            decreases n - i,
        {
            if self.entries[i].token == tok {
                self.entries[i] = SessionEntry {
                    token: tok.clone(),
                    player_id,
                    expires_at: now + SESSION_TTL_SECS,
                };
                proof {
                    assert(self.entries@[i as int].token@ == tok@);
                    assert(self.entries@[i as int].player_id == player_id);
                    assert forall|n2: int|
                        now <= n2 < now + SESSION_TTL_SECS implies self.has_session(tok@, n2) by {
                        assert(self.entries@[i as int].token@ == tok@ && n2
                            < self.entries@[i as int].expires_at);
                    }
                }
                return tok;
            }
            i = i + 1;
        }
        let ghost nn = self.entries@.len();
        let ghost pre = *self;
        self.entries.push(
            SessionEntry { token: tok.clone(), player_id, expires_at: now + SESSION_TTL_SECS },
        );
        proof {
            assert(self.wf()) by {
                assert forall|x: int, y: int|
                    0 <= x < y < self.entries@.len() implies (
                #[trigger] self.entries@[x]).token@ != (#[trigger] self.entries@[y]).token@ by {
                    if y == nn {
                        assert(pre.entries@[x].token@ != tok@);
                    }
                }
            }
            assert(self.entries@[nn as int].token@ == tok@);
            assert(self.entries@[nn as int].player_id == player_id);
            assert forall|n2: int|
                now <= n2 < now + SESSION_TTL_SECS implies self.has_session(tok@, n2) by {
                assert(self.entries@[nn as int].token@ == tok@ && n2
                    < self.entries@[nn as int].expires_at);
            }
        }
        tok
    }

    /// Reads a session: a live token yields its player and has its expiry
    /// pushed out by the full session lifetime; a missing or expired token
    /// yields nothing and changes nothing.
    #[verifier::loop_isolation(false)]
    pub fn verify_token(&mut self, token: &String, now: i64) -> (r: Option<i32>)
        requires
            old(self).wf(),
            now <= i64::MAX - SESSION_TTL_SECS,
        ensures
            final(self).wf(),
            match r {
                Some(pid) => {
                    &&& old(self).has_session(token@, now as int)
                    &&& forall|n2: int|
                        now <= n2 < now + SESSION_TTL_SECS ==> final(self).has_session(token@, n2)
                    &&& final(self).entries@.len() == old(self).entries@.len()
                    &&& exists|i: int|
                        {
                            &&& 0 <= i < old(self).entries@.len()
                            &&& (#[trigger] old(self).entries@[i]).token@ == token@
                            &&& old(self).entries@[i].player_id == pid
                            &&& final(self).entries@[i].token@ == token@
                            &&& final(self).entries@[i].player_id == pid
                            &&& final(self).entries@[i].expires_at == now + SESSION_TTL_SECS
                            &&& forall|k: int|
                                0 <= k < old(self).entries@.len() && k != i
                                    ==> final(self).entries@[k] == old(self).entries@[k]
                        }
                },
                None => !old(self).has_session(token@, now as int) && *final(self) == *old(self),
            },
    {
        let mut i: usize = 0;
        let n = self.entries.len();
        while i < n
            invariant
                i <= n == self.entries@.len(),
                self.wf(),
                *self == *old(self),
                forall|j: int|
                    0 <= j < i ==> !((#[trigger] self.entries@[j]).token@ == token@ && (
                    now as int) < self.entries@[j].expires_at),
            decreases n - i,
        {
            if self.entries[i].token == *token && now < self.entries[i].expires_at {
                let pid = self.entries[i].player_id;
                let ghost pre = *self;
                self.entries[i] = SessionEntry {
                    token: token.clone(),
                    player_id: pid,
                    expires_at: now + SESSION_TTL_SECS,
                };
                proof {
                    assert(pre.entries@[i as int].token@ == token@);
                    assert(pre.has_session(token@, now as int));
                    assert(self.entries@[i as int].token@ == token@);
                    assert forall|n2: int|
                        now <= n2 < now + SESSION_TTL_SECS implies self.has_session(token@, n2) by {
                        assert(self.entries@[i as int].token@ == token@ && n2
                            < self.entries@[i as int].expires_at);
                    }
                    assert(self.wf()) by {
                        assert forall|x: int, y: int|
                            0 <= x < y < self.entries@.len() implies (
                        #[trigger] self.entries@[x]).token@ != (
                        #[trigger] self.entries@[y]).token@ by {
                            assert(pre.entries@[x].token@ != pre.entries@[y].token@);
                        }
                    }
                }
                return Some(pid);
            }
            i = i + 1;
        }
        None
    }

    /// Forgets one session token.
    #[verifier::loop_isolation(false)]
    pub fn delete_token(&mut self, token: &String)
        requires
            old(self).wf(),
        ensures
            final(self).wf(),
            forall|n2: int| !final(self).has_session(token@, n2),
    {
        let mut kept: Vec<SessionEntry> = Vec::new();
        let n = self.entries.len();
        let mut i: usize = 0;
        while i < n
            invariant
                i <= n == self.entries@.len(),
                self.wf(),
                *self == *old(self),
                forall|x: int, y: int|
                    0 <= x < y < kept@.len() ==> (#[trigger] kept@[x]).token@ != (
                    #[trigger] kept@[y]).token@,
                forall|x: int|
                    0 <= x < kept@.len() ==> (#[trigger] kept@[x]).token@ != token@,
                forall|x: int|
                    0 <= x < kept@.len() ==> exists|y: int|
                        0 <= y < i && (#[trigger] self.entries@[y]).token == (
                        #[trigger] kept@[x]).token && self.entries@[y].expires_at
                            == kept@[x].expires_at,
            decreases n - i,
        {
            if !(self.entries[i].token == *token) {
                let e = &self.entries[i];
                let ghost prev_kept = kept@;
                kept.push(
                    SessionEntry {
                        token: e.token.clone(),
                        player_id: e.player_id,
                        expires_at: e.expires_at,
                    },
                );
                proof {
                    let m = kept@.len() - 1;
                    assert(kept@[m].token@ == self.entries@[i as int].token@);
                    assert forall|x: int, y: int|
                        0 <= x < y < kept@.len() implies (#[trigger] kept@[x]).token@ != (
                    #[trigger] kept@[y]).token@ by {
                        if y == m {
                            let w = choose|w: int|
                                0 <= w < i && (#[trigger] self.entries@[w]).token
                                    == kept@[x].token && self.entries@[w].expires_at
                                    == kept@[x].expires_at;
                            assert(self.entries@[w].token@ != self.entries@[i as int].token@);
                        }
                    }
                }
            }
            i = i + 1;
        }
        self.entries = kept;
    }

    /// Forgets every session of one player — the ban flow's sweep.
    #[verifier::loop_isolation(false)]
    pub fn delete_all_for_player(&mut self, player_id: i32)
        requires
            old(self).wf(),
        ensures
            final(self).wf(),
            forall|x: int|
                0 <= x < final(self).entries@.len() ==> (
                #[trigger] final(self).entries@[x]).player_id != player_id,
    {
        let mut kept: Vec<SessionEntry> = Vec::new();
        let n = self.entries.len();
        let mut i: usize = 0;
        while i < n
            invariant
                i <= n == self.entries@.len(),
                self.wf(),
                *self == *old(self),
                forall|x: int, y: int|
                    0 <= x < y < kept@.len() ==> (#[trigger] kept@[x]).token@ != (
                    #[trigger] kept@[y]).token@,
                forall|x: int|
                    0 <= x < kept@.len() ==> (#[trigger] kept@[x]).player_id != player_id,
                forall|x: int|
                    0 <= x < kept@.len() ==> exists|y: int|
                        0 <= y < i && (#[trigger] self.entries@[y]).token == (
                        #[trigger] kept@[x]).token && self.entries@[y].expires_at
                            == kept@[x].expires_at,
            decreases n - i,
        {
            if !(self.entries[i].player_id == player_id) {
                let e = &self.entries[i];
                kept.push(
                    SessionEntry {
                        token: e.token.clone(),
                        player_id: e.player_id,
                        expires_at: e.expires_at,
                    },
                );
                proof {
                    let m = kept@.len() - 1;
                    assert(kept@[m].token@ == self.entries@[i as int].token@);
                    assert forall|x: int, y: int|
                        0 <= x < y < kept@.len() implies (#[trigger] kept@[x]).token@ != (
                    #[trigger] kept@[y]).token@ by {
                        if y == m {
                            let w = choose|w: int|
                                0 <= w < i && (#[trigger] self.entries@[w]).token
                                    == kept@[x].token && self.entries@[w].expires_at
                                    == kept@[x].expires_at;
                            assert(self.entries@[w].token@ != self.entries@[i as int].token@);
                        }
                    }
                }
            }
            i = i + 1;
        }
        self.entries = kept;
    }
}

} // verus!
