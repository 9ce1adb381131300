//! The global skill-point leaderboard: the model of the cache store's single
//! sorted set. Members are player ids, values are skill-point sums.
//!
//! Members are ranked by points descending; members with equal points are
//! ordered by ascending player id, which fixes one total order for ranks and
//! pages.

use vstd::prelude::*;
use vstd::relations::{sorted_by, total_ordering};
use vstd::multiset::Multiset;
use vstd::seq_lib::{lemma_multiset_commutative, lemma_sorted_unique};

verus! {

/// One member of the sorted set.
#[derive(Clone, Copy, Debug, PartialEq, Eq, Structural)]
pub struct LbEntry {
    pub player_id: i32,
    pub points: i64,
}

/// Does `a` come no later than `b` in leaderboard order?
pub open spec fn lb_leq(a: LbEntry, b: LbEntry) -> bool {
    a.points > b.points || (a.points == b.points && a.player_id <= b.player_id)
}

/// Does `a` come strictly before `b`?
pub open spec fn lb_before(a: LbEntry, b: LbEntry) -> bool {
    lb_leq(a, b) && a != b
}

pub open spec fn lb_ord() -> spec_fn(LbEntry, LbEntry) -> bool {
    |a: LbEntry, b: LbEntry| lb_leq(a, b)
}

/// Leaderboard order is a total order on entries.
pub proof fn lemma_lb_total()
    ensures
        total_ordering(lb_ord()),
{
}

/// How many entries of `s` rank strictly before `e`.
pub open spec fn count_before(s: Seq<LbEntry>, e: LbEntry) -> int
    decreases s.len(),
{
    if s.len() == 0 {
        0
    } else {
        count_before(s.drop_last(), e) + if lb_before(s.last(), e) {
            1int
        } else {
            0int
        }
    }
}

fn lb_leq_exec(a: LbEntry, b: LbEntry) -> (r: bool)
    ensures
        r == lb_leq(a, b),
{
    a.points > b.points || (a.points == b.points && a.player_id <= b.player_id)
}

/// The cache-resident sorted set keyed `leaderboard`.
#[derive(Clone, Debug)]
pub struct LeaderboardCache {
    pub entries: Vec<LbEntry>,
}

impl LeaderboardCache {
    /// Each player id appears at most once.
    pub open spec fn wf(self) -> bool {
        forall|i: int, j: int|
            0 <= i < j < self.entries@.len() ==> (#[trigger] self.entries@[i]).player_id != (
            #[trigger] self.entries@[j]).player_id
    }

    pub open spec fn contains_player(self, pid: int) -> bool {
        exists|i: int|
            0 <= i < self.entries@.len() && (#[trigger] self.entries@[i]).player_id == pid
    }

    pub open spec fn spec_index_of(self, pid: int) -> int {
        choose|i: int|
            0 <= i < self.entries@.len() && (#[trigger] self.entries@[i]).player_id == pid
    }

    /// The member's skill-point value. Meaningful only where the member
    /// exists.
    pub open spec fn points_of(self, pid: int) -> int {
        self.entries@[self.spec_index_of(pid)].points as int
    }

    /// In a well-formed cache an index holding `pid` is the index of `pid`.
    pub proof fn lemma_index_at(self, i: int)
        requires
            self.wf(),
            0 <= i < self.entries@.len(),
        ensures
            self.spec_index_of(self.entries@[i].player_id as int) == i,
            self.contains_player(self.entries@[i].player_id as int),
            self.points_of(self.entries@[i].player_id as int)
                == self.entries@[i].points as int,
    {
        let pid = self.entries@[i].player_id as int;
        assert(self.contains_player(pid));
        let j = self.spec_index_of(pid);
        if i < j {
            assert(self.entries@[i].player_id != self.entries@[j].player_id);
        } else if j < i {
            assert(self.entries@[j].player_id != self.entries@[i].player_id);
        }
    }

    pub fn new() -> (r: LeaderboardCache)
        ensures
            r.wf(),
            r.entries@.len() == 0,
    {
        LeaderboardCache { entries: Vec::new() }
    }

    /// The index of the member, by linear scan.
    #[verifier::loop_isolation(false)]
    pub fn find_entry(&self, player_id: i32) -> (r: Option<usize>)
        ensures
            match r {
                Some(i) => i < self.entries@.len() && self.entries@[i as int].player_id
                    == player_id,
                None => !self.contains_player(player_id as int),
            },
    {
        let mut i: usize = 0;
        while i < self.entries.len()
            invariant
                i <= self.entries@.len(),
                forall|j: int| 0 <= j < i ==> (#[trigger] self.entries@[j]).player_id != player_id,
            decreases self.entries@.len() - i,
        {
            if self.entries[i].player_id == player_id {
                return Some(i);
            }
            i = i + 1;
        }
        None
    }

    /// Inserts the member with 0 points if it is absent; an existing member
    /// is left exactly as it was.
    pub fn add_or_reset(&mut self, player_id: i32)
        requires
            old(self).wf(),
        ensures
            final(self).wf(),
            final(self).contains_player(player_id as int),
            old(self).contains_player(player_id as int) ==> final(self).entries@ == old(
                self,
            ).entries@,
            !old(self).contains_player(player_id as int) ==> final(self).entries@ == old(
                self,
            ).entries@.push(LbEntry { player_id, points: 0 }),
            !old(self).contains_player(player_id as int) ==> final(self).points_of(
                player_id as int,
            ) == 0,
            forall|q: int|
                q != player_id as int ==> (final(self).contains_player(q) <==> old(
                    self,
                ).contains_player(q)),
            forall|q: int|
                q != player_id as int && old(self).contains_player(q) ==> final(self).points_of(q)
                    == old(self).points_of(q),
    {
        match self.find_entry(player_id) {
            Some(i) => {
                proof {
                    assert(self.contains_player(player_id as int));
                }
            },
            None => {
                let n = self.entries.len();
                self.entries.push(LbEntry { player_id, points: 0 });
                proof {
                    assert(self.entries@[n as int].player_id == player_id);
                    assert(self.contains_player(player_id as int));
                    self.lemma_index_at(n as int);
                    assert forall|q: int|
                        q != player_id as int implies (self.contains_player(q) <==> old(
                        self,
                    ).contains_player(q)) by {
                        if old(self).contains_player(q) {
                            let j = old(self).spec_index_of(q);
                            assert(old(self).entries@[j].player_id == q);
                            assert(self.entries@[j].player_id == q);
                        }
                        if self.contains_player(q) {
                            let j = self.spec_index_of(q);
                            assert(self.entries@[j].player_id == q);
                            assert(j != n as int);
                            assert(old(self).entries@[j].player_id == q);
                        }
                    }
                    assert forall|q: int|
                        q != player_id as int && old(self).contains_player(q) implies self.points_of(q) == old(self).points_of(q) by {
                        let i = old(self).spec_index_of(q);
                        assert(old(self).entries@[i].player_id == q);
                        assert(self.entries@[i].player_id == q);
                        self.lemma_index_at(i);
                        old(self).lemma_index_at(i);
                    }
                }
            },
        }
    }

    /// Atomically adds `delta` to the member's value.
    pub fn incr(&mut self, player_id: i32, delta: i64)
        requires
            old(self).wf(),
            old(self).contains_player(player_id as int),
            i64::MIN <= old(self).points_of(player_id as int) + delta <= i64::MAX,
        ensures
            final(self).wf(),
            final(self).entries@.len() == old(self).entries@.len(),
            final(self).contains_player(player_id as int),
            final(self).points_of(player_id as int) == old(self).points_of(player_id as int)
                + delta,
            forall|q: int|
                (final(self).contains_player(q) <==> old(self).contains_player(q)),
            forall|q: int|
                q != player_id as int && old(self).contains_player(q) ==> final(self).points_of(q)
                    == old(self).points_of(q),
    {
        let i = match self.find_entry(player_id) {
            Some(i) => i,
            None => {
                proof {
                    assert(false);
                }
                0
            },
        };
        proof {
            self.lemma_index_at(i as int);
        }
        let e = self.entries[i];
        self.entries[i] = LbEntry { player_id, points: e.points + delta };
        proof {
            self.lemma_index_at(i as int);
            assert forall|q: int| final(self).contains_player(q) implies old(
                self,
            ).contains_player(q) by {
                let j = choose|j: int|
                    0 <= j < self.entries@.len() && (#[trigger] self.entries@[j]).player_id == q;
                assert(old(self).entries@[j].player_id == q || j == i as int);
            }
            assert forall|q: int| old(self).contains_player(q) implies self.contains_player(q) by {
                let j = old(self).spec_index_of(q);
                assert(old(self).entries@[j].player_id == q);
                assert(self.entries@[j].player_id == q || j == i as int);
            }
            assert forall|q: int|
                q != player_id as int && old(self).contains_player(q) implies self.points_of(q) == old(self).points_of(q) by {
                let j = old(self).spec_index_of(q);
                assert(old(self).entries@[j].player_id == q);
                assert(j != i as int);
                self.lemma_index_at(j);
                old(self).lemma_index_at(j);
            }
        }
    }

    /// Writes the member's value outright, inserting it if absent.
    pub fn set_points(&mut self, player_id: i32, points: i64)
        requires
            old(self).wf(),
        ensures
            final(self).wf(),
            final(self).contains_player(player_id as int),
            final(self).points_of(player_id as int) == points as int,
            forall|q: int|
                q != player_id as int ==> (final(self).contains_player(q) <==> old(
                    self,
                ).contains_player(q)),
            forall|q: int|
                q != player_id as int && old(self).contains_player(q) ==> final(self).points_of(q)
                    == old(self).points_of(q),
    {
        match self.find_entry(player_id) {
            Some(i) => {
                proof {
                    self.lemma_index_at(i as int);
                }
                self.entries[i] = LbEntry { player_id, points };
                proof {
                    self.lemma_index_at(i as int);
                    assert forall|q: int|
                        q != player_id as int implies (self.contains_player(q) <==> old(self).contains_player(q)) by {
                        if old(self).contains_player(q) {
                            let j = old(self).spec_index_of(q);
                            assert(old(self).entries@[j].player_id == q);
                            assert(self.entries@[j].player_id == q);
                        }
                        if self.contains_player(q) {
                            let j = self.spec_index_of(q);
                            assert(self.entries@[j].player_id == q);
                            assert(old(self).entries@[j].player_id == q);
                        }
                    }
                    assert forall|q: int|
                        q != player_id as int && old(self).contains_player(q) implies self.points_of(q) == old(self).points_of(q) by {
                        let j = old(self).spec_index_of(q);
                        assert(old(self).entries@[j].player_id == q);
                        assert(j != i as int);
                        self.lemma_index_at(j);
                        old(self).lemma_index_at(j);
                    }
                }
            },
            None => {
                let n = self.entries.len();
                self.entries.push(LbEntry { player_id, points });
                proof {
                    assert(self.entries@[n as int].player_id == player_id);
                    self.lemma_index_at(n as int);
                    assert forall|q: int|
                        q != player_id as int implies (self.contains_player(q) <==> old(
                        self,
                    ).contains_player(q)) by {
                        if old(self).contains_player(q) {
                            let j = old(self).spec_index_of(q);
                            assert(old(self).entries@[j].player_id == q);
                            assert(self.entries@[j].player_id == q);
                        }
                        if self.contains_player(q) {
                            let j = self.spec_index_of(q);
                            assert(self.entries@[j].player_id == q);
                            assert(j != n as int);
                            assert(old(self).entries@[j].player_id == q);
                        }
                    }
                    assert forall|q: int|
                        q != player_id as int && old(self).contains_player(q) implies self.points_of(q) == old(self).points_of(q) by {
                        let j = old(self).spec_index_of(q);
                        assert(old(self).entries@[j].player_id == q);
                        assert(self.entries@[j].player_id == q);
                        self.lemma_index_at(j);
                        old(self).lemma_index_at(j);
                    }
                }
            },
        }
    }

    /// The member's value, or 0 for an absent member.
    pub fn skill_points_of(&self, player_id: i32) -> (r: i64)
        requires
            self.wf(),
        ensures
            self.contains_player(player_id as int) ==> r as int == self.points_of(
                player_id as int,
            ),
            !self.contains_player(player_id as int) ==> r == 0,
    {
        match self.find_entry(player_id) {
            Some(i) => {
                proof {
                    self.lemma_index_at(i as int);
                }
                self.entries[i].points
            },
            None => 0,
        }
    }

    /// The cardinality of the sorted set.
    pub fn total_players(&self) -> (r: usize)
        ensures
            r == self.entries@.len(),
    {
        self.entries.len()
    }

    /// The member's 1-based descending rank, or `None` for an absent member.
    #[verifier::loop_isolation(false)]
    pub fn rank(&self, player_id: i32) -> (r: Option<usize>)
        requires
            self.wf(),
        ensures
            match r {
                Some(k) => self.contains_player(player_id as int) && k as int == 1 + count_before(
                    self.entries@,
                    self.entries@[self.spec_index_of(player_id as int)],
                ),
                None => !self.contains_player(player_id as int),
            },
    {
        let i = match self.find_entry(player_id) {
            Some(i) => i,
            None => {
                return None;
            },
        };
        proof {
            self.lemma_index_at(i as int);
        }
        let me = self.entries[i];
        let mut k: usize = 0;
        let mut j: usize = 0;
        while j < self.entries.len()
            invariant
                j <= self.entries@.len(),
                k <= j,
                i < j ==> k < j,
                k as int == count_before(self.entries@.take(j as int), me),
            decreases self.entries@.len() - j,
        {
            let e = self.entries[j];
            proof {
                assert(self.entries@.take(j + 1).drop_last() =~= self.entries@.take(j as int));
                assert(self.entries@.take(j + 1).last() == self.entries@[j as int]);
            }
            if lb_leq_exec(e, me) && !(e.player_id == me.player_id && e.points == me.points) {
                proof {
                    assert(j != i);
                }
                k = k + 1;
            }
            j = j + 1;
        }
        proof {
            assert(self.entries@.take(self.entries@.len() as int) =~= self.entries@);
        }
        Some(k + 1)
    }

    /// All members in leaderboard order: points descending, ties by
    /// ascending player id.
    #[verifier::loop_isolation(false)]
    pub fn sorted_entries(&self) -> (r: Vec<LbEntry>)
        ensures
            r@ == self.entries@.sort_by(lb_ord()),
    {
        let ord = Ghost(lb_ord());
        let mut out: Vec<LbEntry> = Vec::new();
        proof {
            assert(out@ =~= self.entries@.take(0));
        }
        let mut i: usize = 0;
        while i < self.entries.len()
            invariant
                i <= self.entries@.len(),
                sorted_by(out@, ord@),
                out@.to_multiset() == self.entries@.take(i as int).to_multiset(),
            decreases self.entries@.len() - i,
        {
            let e = self.entries[i];
            let mut j: usize = 0;
            while j < out.len() && !lb_leq_exec(e, out[j])
                invariant
                    j <= out@.len(),
                    forall|k: int| 0 <= k < j ==> !lb_leq(e, #[trigger] out@[k]),
                decreases out@.len() - j,
            {
                j = j + 1;
            }
            let ghost before = out@;
            out.insert(j, e);
            proof {
                assert(out@ =~= before.take(j as int) + seq![e] + before.skip(j as int));
                assert(sorted_by(out@, ord@)) by {
                    assert forall|p: int, q: int| 0 <= p < q < out@.len() implies ord@(
                        out@[p],
                        out@[q],
                    ) by {
                        if q < j {
                            assert(out@[p] == before[p] && out@[q] == before[q]);
                        } else if p < j && q == j {
                            assert(out@[p] == before[p]);
                            assert(!lb_leq(e, before[p]));
                        } else if p == j && q > j {
                            assert(out@[q] == before[q - 1]);
                            assert(j < before.len() + 1 && q - 1 >= j);
                            assert(lb_leq(e, before[j as int]));
                            assert(ord@(before[j as int], before[q - 1]) || j as int == q - 1);
                        } else if p < j && q > j {
                            assert(out@[p] == before[p] && out@[q] == before[q - 1]);
                            assert(!lb_leq(e, before[p]));
                            assert(lb_leq(e, before[j as int]));
                            assert(ord@(before[j as int], before[q - 1]) || j as int == q - 1);
                        } else {
                            assert(p > j && q > j);
                            assert(out@[p] == before[p - 1] && out@[q] == before[q - 1]);
                        }
                    }
                }
                assert(out@.to_multiset() == self.entries@.take(i + 1).to_multiset()) by {
                    broadcast use vstd::seq_lib::group_to_multiset_ensures;

                    lemma_multiset_commutative(before.take(j as int) + seq![e], before.skip(
                        j as int,
                    ));
                    lemma_multiset_commutative(before.take(j as int), seq![e]);
                    lemma_multiset_commutative(before.take(j as int), before.skip(j as int));
                    assert(before.take(j as int) + before.skip(j as int) =~= before);
                    assert(seq![e].to_multiset() =~= Multiset::empty().insert(e)) by {
                        assert(seq![e].drop_last() =~= Seq::<LbEntry>::empty());
                    }
                    assert(self.entries@.take(i + 1).drop_last() =~= self.entries@.take(
                        i as int,
                    ));
                    assert(self.entries@.take(i + 1) =~= self.entries@.take(i as int).push(e));
                }
            }
            i = i + 1;
        }
        proof {
            assert(self.entries@.take(self.entries@.len() as int) =~= self.entries@);
            lemma_lb_total();
            self.entries@.lemma_sort_by_ensures(ord@);
            lemma_sorted_unique(out@, self.entries@.sort_by(ord@), ord@);
        }
        out
    }

    /// One page of the leaderboard in descending order: the members ranked
    /// `offset+1` through `offset+limit`.
    pub fn page(&self, offset: usize, limit: usize) -> (r: Vec<LbEntry>)
        ensures
            ({
                let s = self.entries@.sort_by(lb_ord());
                let lo = if offset as int <= s.len() {
                    offset as int
                } else {
                    s.len() as int
                };
                let hi = if offset + limit <= s.len() {
                    offset + limit
                } else {
                    s.len() as int
                };
                r@ == s.subrange(lo, hi)
            }),
    {
        let sorted = self.sorted_entries();
        let lo = if offset <= sorted.len() {
            offset
        } else {
            sorted.len()
        };
        let mut r: Vec<LbEntry> = Vec::new();
        let mut i: usize = lo;
        while i < sorted.len() && i - lo < limit
            invariant
                lo <= i <= sorted@.len(),
                i - lo <= limit,
                sorted@ == self.entries@.sort_by(lb_ord()),
                r@ == sorted@.subrange(lo as int, i as int),
            decreases sorted@.len() - i,
        {
            r.push(sorted[i]);
            proof {
                assert(sorted@.subrange(lo as int, i as int).push(sorted@[i as int])
                    =~= sorted@.subrange(lo as int, i + 1));
            }
            i = i + 1;
        }
        proof {
            let s = self.entries@.sort_by(lb_ord());
            let hi = if offset + limit <= s.len() {
                offset + limit
            } else {
                s.len() as int
            };
            assert(i as int == hi || (i == s.len() && i - lo < limit));
            assert(r@ =~= s.subrange(lo as int, hi));
        }
        r
    }
}

} // verus!
