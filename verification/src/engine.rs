//! The score submission engine.
//!
//! A submission either inserts a first personal best, replaces a lower one,
//! or only bumps the play count. The leaderboard moves exactly by the
//! difference of the old and new skill points, in the order: subtract the
//! old points, write the row, add the new points.

use vstd::prelude::*;
use crate::game_types::League;
use crate::models::{NewScore, Score};
use crate::store::{lemma_sum_sp_push, lemma_sum_sp_update, lemma_sum_sp_remove, sp_contrib, sp_of, sum_sp, Store};

verus! {

/// Copies a vector of plain integers.
#[verifier::loop_isolation(false)]
pub fn copy_i32s(v: &Vec<i32>) -> (r: Vec<i32>)
    ensures
        r@ == v@,
{
    let mut r: Vec<i32> = Vec::new();
    let mut i: usize = 0;
    while i < v.len()
        invariant
            i <= v@.len(),
            r@ =~= v@.take(i as int),
        decreases v@.len() - i,
    {
        r.push(v[i]);
        proof {
            assert(r@ =~= v@.take(i + 1));
        }
        i = i + 1;
    }
    proof {
        assert(r@ =~= v@);
    }
    r
}

/// Copies a vector of strings, value for value.
#[verifier::loop_isolation(false)]
pub fn clone_strings(v: &Vec<String>) -> (r: Vec<String>)
    ensures
        r@ == v@,
{
    let mut r: Vec<String> = Vec::new();
    let mut i: usize = 0;
    while i < v.len()
        invariant
            i <= v@.len(),
            r@ =~= v@.take(i as int),
        decreases v@.len() - i,
    {
        r.push(v[i].clone());
        proof {
            assert(r@ =~= v@.take(i + 1));
        }
        i = i + 1;
    }
    proof {
        assert(r@ =~= v@);
    }
    r
}

/// `r` is the row a fresh submission writes: the submitted fields, the given
/// id and play count, and the given submission time.
pub open spec fn score_row_matches(r: Score, ns: NewScore, id: int, play_count: int, now: int) -> bool {
    &&& r.id as int == id
    &&& r.player_id == ns.player_id
    &&& r.song_id == ns.song_id
    &&& r.league == ns.league
    &&& r.score == ns.score
    &&& r.track_shape@ == ns.track_shape@
    &&& r.xstats@ == ns.xstats@
    &&& r.density == ns.density
    &&& r.vehicle == ns.vehicle
    &&& r.feats@ == ns.feats@
    &&& r.song_length == ns.song_length
    &&& r.gold_threshold == ns.gold_threshold
    &&& r.iss == ns.iss
    &&& r.isj == ns.isj
    &&& r.play_count as int == play_count
    &&& r.submitted_at as int == now
}

/// `r` is `prev` with one more play and a fresh submission time; the best
/// ride itself is untouched.
pub open spec fn score_row_touched(r: Score, prev: Score, now: int) -> bool {
    &&& r.id == prev.id
    &&& r.player_id == prev.player_id
    &&& r.song_id == prev.song_id
    &&& r.league == prev.league
    &&& r.score == prev.score
    &&& r.track_shape@ == prev.track_shape@
    &&& r.xstats@ == prev.xstats@
    &&& r.density == prev.density
    &&& r.vehicle == prev.vehicle
    &&& r.feats@ == prev.feats@
    &&& r.song_length == prev.song_length
    &&& r.gold_threshold == prev.gold_threshold
    &&& r.iss == prev.iss
    &&& r.isj == prev.isj
    &&& r.play_count as int == prev.play_count + 1
    &&& r.submitted_at as int == now
}

impl Store {
    /// The index of the personal-best row for the triple. Meaningful only
    /// where `has_pb` holds.
    pub open spec fn pb_index(self, pid: int, sid: int, league: League) -> int {
        choose|i: int|
            0 <= i < self.scores@.len() && (#[trigger] self.scores@[i]).player_id == pid
                && self.scores@[i].song_id == sid && self.scores@[i].league == league
    }

    /// In a well-formed store, any row holding the triple is the row
    /// `pb_index` names.
    pub proof fn lemma_pb_index_at(self, i: int)
        requires
            self.scores_wf(),
            0 <= i < self.scores@.len(),
        ensures
            self.has_pb(
                self.scores@[i].player_id as int,
                self.scores@[i].song_id as int,
                self.scores@[i].league,
            ),
            self.pb_index(
                self.scores@[i].player_id as int,
                self.scores@[i].song_id as int,
                self.scores@[i].league,
            ) == i,
    {
        let pid = self.scores@[i].player_id as int;
        let sid = self.scores@[i].song_id as int;
        let league = self.scores@[i].league;
        assert(self.has_pb(pid, sid, league));
        let j = self.pb_index(pid, sid, league);
        if i < j {
            assert(!(self.scores@[i].player_id == self.scores@[j].player_id
                && self.scores@[i].song_id == self.scores@[j].song_id && self.scores@[i].league
                == self.scores@[j].league));
        } else if j < i {
            assert(!(self.scores@[j].player_id == self.scores@[i].player_id
                && self.scores@[j].song_id == self.scores@[i].song_id && self.scores@[j].league
                == self.scores@[i].league));
        }
    }
}

impl NewScore {
    /// Reconciles this submission with the stored personal best, moving the
    /// leaderboard by the difference of the old and new skill points, and
    /// returns the index of the written row.
    ///
    /// Exactly one of three things happens: a first row is appended with one
    /// play; a lower best is replaced, its play count bumped; or — on a tie
    /// or a lower ride — only the play count and submission time move.
    pub fn create_or_update(&self, store: &mut Store, now: i64) -> (idx: usize)
        requires
            old(store).wf(),
            old(store).has_player_id(self.player_id as int),
            old(store).has_song_id(self.song_id as int),
            old(store).next_score_id < i32::MAX,
            old(store).has_pb(self.player_id as int, self.song_id as int, self.league) ==> old(
                store,
            ).scores@[old(store).pb_index(
                self.player_id as int,
                self.song_id as int,
                self.league,
            )].play_count < i32::MAX,
            i64::MIN + 0x1_0000_0000 <= old(store).leaderboard.points_of(self.player_id as int),
            old(store).leaderboard.points_of(self.player_id as int) <= i64::MAX - 0x1_0000_0000,
        ensures
            final(store).wf(),
            submit_effect(*old(store), *final(store), *self, now as int, idx as int),
    {
        proof {
            reveal(submit_effect);
        }
        let pid = self.player_id;
        match store.find_score_by_triple(pid, self.song_id, self.league) {
            None => {
                let id = store.next_score_id;
                let row = Score {
                    id,
                    song_id: self.song_id,
                    player_id: pid,
                    league: self.league,
                    submitted_at: now,
                    play_count: 1,
                    score: self.score,
                    track_shape: copy_i32s(&self.track_shape),
                    xstats: copy_i32s(&self.xstats),
                    density: self.density,
                    vehicle: self.vehicle,
                    feats: clone_strings(&self.feats),
                    song_length: self.song_length,
                    gold_threshold: self.gold_threshold,
                    iss: self.iss,
                    isj: self.isj,
                };
                let sp = self.submitted_skill_points();
                let ghost prev = *store;
                store.scores.push(row);
                store.next_score_id = id + 1;
                proof {
                    assert(store.scores@.last() == store.scores@[store.scores@.len() - 1]);
                }
                store.leaderboard.incr(pid, sp as i64);
                let idx = store.scores.len() - 1;
                proof {
                    let pidi = pid as int;
                    assert(store.scores@ =~= prev.scores@.push(store.scores@.last()));
                    assert(store.scores_wf()) by {
                        assert forall|a: int, b: int|
                            0 <= a < b < store.scores@.len() implies !((
                        #[trigger] store.scores@[a]).player_id == (
                        #[trigger] store.scores@[b]).player_id && store.scores@[a].song_id
                            == store.scores@[b].song_id && store.scores@[a].league
                            == store.scores@[b].league) by {
                            if b == store.scores@.len() - 1 {
                                assert(!(prev.scores@[a].player_id == pid
                                    && prev.scores@[a].song_id == self.song_id
                                    && prev.scores@[a].league == self.league));
                            }
                        }
                        assert forall|a: int| 0 <= a < store.scores@.len() implies store.has_player_id(
                            (#[trigger] store.scores@[a]).player_id as int,
                        ) && store.has_song_id(store.scores@[a].song_id as int) by {
                            if a < store.scores@.len() - 1 {
                                assert(prev.has_player_id(prev.scores@[a].player_id as int));
                                assert(prev.has_song_id(prev.scores@[a].song_id as int));
                            } else {
                                assert(prev.has_player_id(pidi));
                                assert(prev.has_song_id(self.song_id as int));
                            }
                            let w = choose|w: int|
                                0 <= w < prev.players@.len() && (#[trigger] prev.players@[w]).id
                                    == store.scores@[a].player_id;
                            assert(store.players@[w].id == store.scores@[a].player_id);
                            let v = choose|v: int|
                                0 <= v < prev.songs@.len() && (#[trigger] prev.songs@[v]).id
                                    == store.scores@[a].song_id;
                            assert(store.songs@[v].id == store.scores@[a].song_id);
                        }
                    }
                    assert(store.leaderboard_wf()) by {
                        assert forall|e: int|
                            0 <= e < store.leaderboard.entries@.len() implies (
                        #[trigger] store.leaderboard.entries@[e]).points as int == sum_sp(
                            store.scores@,
                            store.leaderboard.entries@[e].player_id as int,
                        ) by {
                            let q = store.leaderboard.entries@[e].player_id as int;
                            lemma_sum_sp_push(prev.scores@, store.scores@.last(), q);
                            store.leaderboard.lemma_index_at(e);
                            assert(prev.leaderboard.contains_player(q));
                            let pe = prev.leaderboard.spec_index_of(q);
                            assert(prev.leaderboard.entries@[pe].player_id == q);
                            prev.leaderboard.lemma_index_at(pe);
                            if q == pidi {
                                assert(store.leaderboard.points_of(q) == prev.leaderboard.points_of(
                                    q,
                                ) + sp as int);
                            } else {
                                assert(store.leaderboard.points_of(q) == prev.leaderboard.points_of(
                                    q,
                                ));
                            }
                        }
                        assert forall|e: int|
                            0 <= e < store.leaderboard.entries@.len() implies store.has_player_id(
                            (#[trigger] store.leaderboard.entries@[e]).player_id as int,
                        ) by {
                            let q = store.leaderboard.entries@[e].player_id as int;
                            store.leaderboard.lemma_index_at(e);
                            assert(store.leaderboard.contains_player(q));
                            assert(prev.leaderboard.contains_player(q));
                            let pe = prev.leaderboard.spec_index_of(q);
                            assert(prev.leaderboard.entries@[pe].player_id == q);
                            assert(prev.has_player_id(q));
                            let w = choose|w: int|
                                0 <= w < prev.players@.len() && (#[trigger] prev.players@[w]).id
                                    == q;
                            assert(store.players@[w].id == q);
                        }
                        assert forall|a: int|
                            0 <= a < store.players@.len() implies store.leaderboard.contains_player(
                            (#[trigger] store.players@[a]).id as int,
                        ) by {
                            assert(prev.leaderboard.contains_player(prev.players@[a].id as int));
                        }
                    }
                }
                idx
            },
            Some(i) => {
                proof {
                    store.lemma_pb_index_at(i as int);
                }
                let improving = store.scores[i].score < self.score;
                let prev_row_sp = store.scores[i].get_skill_points();
                let prev_play_count = store.scores[i].play_count;
                let prev_id = store.scores[i].id;
                let ghost prev = *store;
                if improving {
                    let row = Score {
                        id: prev_id,
                        song_id: self.song_id,
                        player_id: pid,
                        league: self.league,
                        submitted_at: now,
                        play_count: prev_play_count + 1,
                        score: self.score,
                        track_shape: copy_i32s(&self.track_shape),
                        xstats: copy_i32s(&self.xstats),
                        density: self.density,
                        vehicle: self.vehicle,
                        feats: clone_strings(&self.feats),
                        song_length: self.song_length,
                        gold_threshold: self.gold_threshold,
                        iss: self.iss,
                        isj: self.isj,
                    };
                    let sp = self.submitted_skill_points();
                    // (a) subtract the old points
                    store.leaderboard.incr(pid, -(prev_row_sp as i64));
                    // (b) write the row
                    store.scores[i] = row;
                    // (c) add the new points
                    store.leaderboard.incr(pid, sp as i64);
                    proof {
                        engine_update_wf(prev, *store, i as int, pid as int);
                    }
                } else {
                    let row = Score {
                        id: prev_id,
                        song_id: self.song_id,
                        player_id: pid,
                        league: store.scores[i].league,
                        submitted_at: now,
                        play_count: prev_play_count + 1,
                        score: store.scores[i].score,
                        track_shape: copy_i32s(&store.scores[i].track_shape),
                        xstats: copy_i32s(&store.scores[i].xstats),
                        density: store.scores[i].density,
                        vehicle: store.scores[i].vehicle,
                        feats: clone_strings(&store.scores[i].feats),
                        song_length: store.scores[i].song_length,
                        gold_threshold: store.scores[i].gold_threshold,
                        iss: store.scores[i].iss,
                        isj: store.scores[i].isj,
                    };
                    store.scores[i] = row;
                    proof {
                        engine_update_wf(prev, *store, i as int, pid as int);
                    }
                }
                i
            },
        }
    }
}

/// The skill points a submission earns.
pub open spec fn sp_spec_of(ns: NewScore) -> int {
    crate::skill::sp_spec(ns.score as int, ns.gold_threshold as int, ns.league)
}

/// How one submission moves the store: nothing but the one score row and
/// the submitter's leaderboard value change, in one of three ways — first
/// row appended, lower best replaced, or only the play count bumped.
#[verifier::opaque]
pub open spec fn submit_effect(pre: Store, post: Store, ns: NewScore, now: int, idx: int) -> bool {
    &&& post.players@ == pre.players@
    &&& post.songs@ == pre.songs@
    &&& post.extra_infos@ == pre.extra_infos@
    &&& post.shouts@ == pre.shouts@
    &&& post.rivalries@ == pre.rivalries@
    &&& post.next_player_id == pre.next_player_id
    &&& post.next_song_id == pre.next_song_id
    &&& post.next_extra_id == pre.next_extra_id
    &&& post.next_shout_id == pre.next_shout_id
    &&& 0 <= idx < post.scores@.len()
    &&& ({
        let pid = ns.player_id as int;
        let was = pre.has_pb(pid, ns.song_id as int, ns.league);
        let pi = pre.pb_index(pid, ns.song_id as int, ns.league);
        if !was {
            // first personal best: append with one play
            &&& post.scores@.len() == pre.scores@.len() + 1
            &&& forall|k: int|
                0 <= k < pre.scores@.len() ==> post.scores@[k] == pre.scores@[k]
            &&& idx == post.scores@.len() - 1
            &&& score_row_matches(post.scores@[idx], ns, pre.next_score_id as int, 1, now)
            &&& post.next_score_id == pre.next_score_id + 1
            &&& post.leaderboard.points_of(pid) == pre.leaderboard.points_of(pid)
                + sp_spec_of(ns)
        } else if pre.scores@[pi].score < ns.score {
            // a strictly better ride replaces the best
            &&& idx == pi
            &&& post.scores@.len() == pre.scores@.len()
            &&& forall|k: int|
                0 <= k < pre.scores@.len() && k != pi ==> post.scores@[k] == pre.scores@[k]
            &&& score_row_matches(
                post.scores@[pi],
                ns,
                pre.scores@[pi].id as int,
                pre.scores@[pi].play_count + 1,
                now,
            )
            &&& post.next_score_id == pre.next_score_id
            &&& post.leaderboard.points_of(pid) == pre.leaderboard.points_of(pid) - sp_of(
                pre.scores@[pi],
            ) + sp_spec_of(ns)
        } else {
            // no improvement: count the play, keep the best
            &&& idx == pi
            &&& post.scores@.len() == pre.scores@.len()
            &&& forall|k: int|
                0 <= k < pre.scores@.len() && k != pi ==> post.scores@[k] == pre.scores@[k]
            &&& score_row_touched(post.scores@[pi], pre.scores@[pi], now)
            &&& post.next_score_id == pre.next_score_id
            &&& post.leaderboard.entries@ == pre.leaderboard.entries@
        }
    })
    &&& forall|q: int|
        q != ns.player_id as int && pre.leaderboard.contains_player(q)
            ==> post.leaderboard.points_of(q) == pre.leaderboard.points_of(q)
    &&& forall|q: int|
        post.leaderboard.contains_player(q) <==> pre.leaderboard.contains_player(q)
}

impl Store {
    /// The index of the score row with this id. Meaningful only where
    /// `has_score_id` holds.
    pub open spec fn score_index(self, id: int) -> int {
        choose|i: int| 0 <= i < self.scores@.len() && (#[trigger] self.scores@[i]).id == id
    }

    /// In a well-formed store, any index holding the id is `score_index`.
    pub proof fn lemma_score_index_at(self, i: int)
        requires
            self.scores_wf(),
            0 <= i < self.scores@.len(),
        ensures
            self.has_score_id(self.scores@[i].id as int),
            self.score_index(self.scores@[i].id as int) == i,
    {
        let id = self.scores@[i].id as int;
        assert(self.has_score_id(id));
        let j = self.score_index(id);
        if i < j {
            assert(self.scores@[i].id != self.scores@[j].id);
        } else if j < i {
            assert(self.scores@[j].id != self.scores@[i].id);
        }
    }
}

/// Deletes a score row by id, first subtracting its skill points from its
/// player's leaderboard value. Returns whether the row existed.
pub fn delete_score(store: &mut Store, id: i32) -> (r: bool)
    requires
        old(store).wf(),
        old(store).has_score_id(id as int) ==> {
            let owner = old(store).scores@[old(store).score_index(id as int)].player_id as int;
            &&& i64::MIN + 0x1_0000_0000 <= old(store).leaderboard.points_of(owner)
            &&& old(store).leaderboard.points_of(owner) <= i64::MAX - 0x1_0000_0000
        },
    ensures
        final(store).wf(),
        r == old(store).has_score_id(id as int),
        !r ==> *final(store) == *old(store),
        final(store).players@ == old(store).players@,
        final(store).songs@ == old(store).songs@,
        final(store).extra_infos@ == old(store).extra_infos@,
        final(store).shouts@ == old(store).shouts@,
        final(store).rivalries@ == old(store).rivalries@,
        final(store).next_player_id == old(store).next_player_id,
        final(store).next_song_id == old(store).next_song_id,
        final(store).next_score_id == old(store).next_score_id,
        final(store).next_extra_id == old(store).next_extra_id,
        final(store).next_shout_id == old(store).next_shout_id,
        r ==> {
            let si = old(store).score_index(id as int);
            let owner = old(store).scores@[si].player_id as int;
            &&& final(store).scores@ == old(store).scores@.remove(si)
            &&& final(store).leaderboard.points_of(owner) == old(store).leaderboard.points_of(
                owner,
            ) - sp_of(old(store).scores@[si])
            &&& forall|q: int|
                q != owner && old(store).leaderboard.contains_player(q)
                    ==> final(store).leaderboard.points_of(q)
                    == old(store).leaderboard.points_of(q)
            &&& forall|q: int|
                final(store).leaderboard.contains_player(q)
                    <==> old(store).leaderboard.contains_player(q)
        },
{
    match store.find_score(id) {
        None => false,
        Some(i) => {
            proof {
                store.lemma_score_index_at(i as int);
            }
            let sp = store.scores[i].get_skill_points();
            let pid = store.scores[i].player_id;
            let ghost prev = *store;
            proof {
                assert(prev.has_player_id(pid as int));
                let w = choose|w: int|
                    0 <= w < prev.players@.len() && (#[trigger] prev.players@[w]).id == pid;
                assert(prev.leaderboard.contains_player(prev.players@[w].id as int));
            }
            store.leaderboard.incr(pid, -(sp as i64));
            store.scores.remove(i);
            proof {
                let pidi = pid as int;
                assert(store.scores@ =~= prev.scores@.remove(i as int));
                assert(store.players_wf());
                assert(store.songs_wf());
                assert(store.scores_wf()) by {
                    assert forall|a: int| 0 <= a < store.scores@.len() implies store.has_player_id(
                        (#[trigger] store.scores@[a]).player_id as int,
                    ) && store.has_song_id(store.scores@[a].song_id as int) by {
                        let src = if a < i as int {
                            a
                        } else {
                            a + 1
                        };
                        assert(store.scores@[a] == prev.scores@[src]);
                        assert(prev.has_player_id(prev.scores@[src].player_id as int));
                        assert(prev.has_song_id(prev.scores@[src].song_id as int));
                        let w = choose|w: int|
                            0 <= w < prev.players@.len() && (#[trigger] prev.players@[w]).id
                                == store.scores@[a].player_id;
                        assert(store.players@[w].id == store.scores@[a].player_id);
                        let v = choose|v: int|
                            0 <= v < prev.songs@.len() && (#[trigger] prev.songs@[v]).id
                                == store.scores@[a].song_id;
                        assert(store.songs@[v].id == store.scores@[a].song_id);
                    }
                }
                assert(store.extras_wf()) by {
                    assert forall|a: int| 0 <= a < store.extra_infos@.len() implies store.has_song_id(
                        (#[trigger] store.extra_infos@[a]).song_id as int,
                    ) by {
                        assert(prev.has_song_id(prev.extra_infos@[a].song_id as int));
                        let v = choose|v: int|
                            0 <= v < prev.songs@.len() && (#[trigger] prev.songs@[v]).id
                                == store.extra_infos@[a].song_id;
                        assert(store.songs@[v].id == store.extra_infos@[a].song_id);
                    }
                }
                assert(store.shouts_wf()) by {
                    assert forall|a: int| 0 <= a < store.shouts@.len() implies store.has_song_id(
                        (#[trigger] store.shouts@[a]).song_id as int,
                    ) && store.has_player_id(store.shouts@[a].author_id as int) by {
                        assert(prev.has_song_id(prev.shouts@[a].song_id as int));
                        assert(prev.has_player_id(prev.shouts@[a].author_id as int));
                        let v = choose|v: int|
                            0 <= v < prev.songs@.len() && (#[trigger] prev.songs@[v]).id
                                == store.shouts@[a].song_id;
                        assert(store.songs@[v].id == store.shouts@[a].song_id);
                        let w = choose|w: int|
                            0 <= w < prev.players@.len() && (#[trigger] prev.players@[w]).id
                                == store.shouts@[a].author_id;
                        assert(store.players@[w].id == store.shouts@[a].author_id);
                    }
                }
                assert(store.rivalries_wf()) by {
                    assert forall|a: int| 0 <= a < store.rivalries@.len() implies store.has_player_id(
                        (#[trigger] store.rivalries@[a]).challenger_id as int,
                    ) && store.has_player_id(store.rivalries@[a].rival_id as int) by {
                        assert(prev.has_player_id(prev.rivalries@[a].challenger_id as int));
                        assert(prev.has_player_id(prev.rivalries@[a].rival_id as int));
                        let w = choose|w: int|
                            0 <= w < prev.players@.len() && (#[trigger] prev.players@[w]).id
                                == store.rivalries@[a].challenger_id;
                        assert(store.players@[w].id == store.rivalries@[a].challenger_id);
                        let v = choose|v: int|
                            0 <= v < prev.players@.len() && (#[trigger] prev.players@[v]).id
                                == store.rivalries@[a].rival_id;
                        assert(store.players@[v].id == store.rivalries@[a].rival_id);
                    }
                }
                assert(store.leaderboard_wf()) by {
                    assert forall|e: int|
                        0 <= e < store.leaderboard.entries@.len() implies (
                    #[trigger] store.leaderboard.entries@[e]).points as int == sum_sp(
                        store.scores@,
                        store.leaderboard.entries@[e].player_id as int,
                    ) && store.has_player_id(store.leaderboard.entries@[e].player_id as int) by {
                        let q = store.leaderboard.entries@[e].player_id as int;
                        store.leaderboard.lemma_index_at(e);
                        assert(store.leaderboard.contains_player(q));
                        assert(prev.leaderboard.contains_player(q));
                        let pe = prev.leaderboard.spec_index_of(q);
                        assert(prev.leaderboard.entries@[pe].player_id == q);
                        prev.leaderboard.lemma_index_at(pe);
                        lemma_sum_sp_remove(prev.scores@, i as int, q);
                        if q == pidi {
                            assert(store.leaderboard.points_of(q) == prev.leaderboard.points_of(q)
                                - sp as int);
                        } else {
                            assert(sp_contrib(prev.scores@[i as int], q) == 0);
                        }
                        assert(prev.has_player_id(q));
                        let w = choose|w: int|
                            0 <= w < prev.players@.len() && (#[trigger] prev.players@[w]).id == q;
                        assert(store.players@[w].id == q);
                    }
                    assert forall|a: int|
                        0 <= a < store.players@.len() implies store.leaderboard.contains_player(
                        (#[trigger] store.players@[a]).id as int,
                    ) by {
                        assert(prev.leaderboard.contains_player(prev.players@[a].id as int));
                    }
                }
            }
            true
        },
    }
}

/// Recomputes a player's skill-point sum from their score rows.
#[verifier::loop_isolation(false)]
pub fn calc_skill_points(store: &Store, player_id: i32) -> (r: i64)
    requires
        store.scores@.len() <= 0x1_0000_0000,
    ensures
        r as int == sum_sp(store.scores@, player_id as int),
{
    let mut acc: i64 = 0;
    let mut i: usize = 0;
    while i < store.scores.len()
        invariant
            i <= store.scores@.len(),
            acc as int == sum_sp(store.scores@.take(i as int), player_id as int),
            -0x8000_0000 * (i as int) <= acc as int <= 0x8000_0000 * (i as int),
        decreases store.scores@.len() - i,
    {
        proof {
            assert(store.scores@.take(i + 1).drop_last() =~= store.scores@.take(i as int));
            assert(store.scores@.take(i + 1).last() == store.scores@[i as int]);
            crate::skill::lemma_sp_bounds(
                store.scores@[i as int].score as int,
                store.scores@[i as int].gold_threshold as int,
                store.scores@[i as int].league,
            );
            let ii = i as int;
            assert(-0x8000_0000 * (ii + 1) == -0x8000_0000 * ii - 0x8000_0000)
                by (nonlinear_arith);
            assert(0x8000_0000 * (ii + 1) == 0x8000_0000 * ii + 0x8000_0000)
                by (nonlinear_arith);
        }
        let s = &store.scores[i];
        if s.player_id == player_id {
            acc = acc + s.get_skill_points() as i64;
        }
        i = i + 1;
    }
    proof {
        assert(store.scores@.take(store.scores@.len() as int) =~= store.scores@);
    }
    acc
}

/// Writes a player's recomputed skill-point sum to the leaderboard. In a
/// well-formed store this is a no-op on the stored values, which makes the
/// recomputation idempotent; it exists to repair drift after a crash.
pub fn refresh_skill_points(store: &mut Store, player_id: i32)
    requires
        old(store).wf(),
        old(store).has_player_id(player_id as int),
        old(store).scores@.len() <= 0x1_0000_0000,
    ensures
        final(store).wf(),
        final(store).scores@ == old(store).scores@,
        final(store).players@ == old(store).players@,
        final(store).songs@ == old(store).songs@,
        final(store).extra_infos@ == old(store).extra_infos@,
        final(store).shouts@ == old(store).shouts@,
        final(store).rivalries@ == old(store).rivalries@,
        final(store).leaderboard.points_of(player_id as int) == sum_sp(
            final(store).scores@,
            player_id as int,
        ),
        final(store).leaderboard.points_of(player_id as int)
            == old(store).leaderboard.points_of(player_id as int),
        forall|q: int|
            q != player_id as int && old(store).leaderboard.contains_player(q)
                ==> final(store).leaderboard.points_of(q)
                == old(store).leaderboard.points_of(q),
{
    let sum = calc_skill_points(store, player_id);
    let ghost prev = *store;
    proof {
        let w = choose|w: int|
            0 <= w < prev.players@.len() && (#[trigger] prev.players@[w]).id == player_id;
        assert(prev.leaderboard.contains_player(prev.players@[w].id as int));
        let pe = prev.leaderboard.spec_index_of(player_id as int);
        assert(prev.leaderboard.entries@[pe].player_id == player_id);
        prev.leaderboard.lemma_index_at(pe);
    }
    store.leaderboard.set_points(player_id, sum);
    proof {
        assert(store.leaderboard_wf()) by {
            assert forall|e: int|
                0 <= e < store.leaderboard.entries@.len() implies (
            #[trigger] store.leaderboard.entries@[e]).points as int == sum_sp(
                store.scores@,
                store.leaderboard.entries@[e].player_id as int,
            ) && store.has_player_id(store.leaderboard.entries@[e].player_id as int) by {
                let q = store.leaderboard.entries@[e].player_id as int;
                store.leaderboard.lemma_index_at(e);
                assert(store.leaderboard.contains_player(q));
                if q == player_id as int {
                } else {
                    assert(prev.leaderboard.contains_player(q));
                    let pe = prev.leaderboard.spec_index_of(q);
                    assert(prev.leaderboard.entries@[pe].player_id == q);
                    prev.leaderboard.lemma_index_at(pe);
                }
                assert(prev.leaderboard.contains_player(q));
                let pe2 = prev.leaderboard.spec_index_of(q);
                assert(prev.leaderboard.entries@[pe2].player_id == q);
                assert(prev.has_player_id(q));
                let w = choose|w: int|
                    0 <= w < prev.players@.len() && (#[trigger] prev.players@[w]).id == q;
                assert(store.players@[w].id == q);
            }
            assert forall|a: int|
                0 <= a < store.players@.len() implies store.leaderboard.contains_player(
                (#[trigger] store.players@[a]).id as int,
            ) by {
                assert(prev.leaderboard.contains_player(prev.players@[a].id as int));
            }
        }
    }
}

/// After replacing the row at `i` with a row of the same player, song,
/// league and id, and moving only that player's leaderboard value by the
/// skill-point difference, the store is well-formed again.
pub(crate) proof fn engine_update_wf(prev: Store, cur: Store, i: int, pid: int)
    requires
        prev.wf(),
        0 <= i < prev.scores@.len(),
        cur.scores@.len() == prev.scores@.len(),
        cur.scores@ =~= prev.scores@.update(i, cur.scores@[i]),
        cur.scores@[i].player_id == prev.scores@[i].player_id,
        cur.scores@[i].song_id == prev.scores@[i].song_id,
        cur.scores@[i].league == prev.scores@[i].league,
        cur.scores@[i].id == prev.scores@[i].id,
        prev.scores@[i].player_id == pid,
        cur.players@ == prev.players@,
        cur.songs@ == prev.songs@,
        cur.extra_infos@ == prev.extra_infos@,
        cur.shouts@ == prev.shouts@,
        cur.rivalries@ == prev.rivalries@,
        cur.next_player_id == prev.next_player_id,
        cur.next_song_id == prev.next_song_id,
        cur.next_score_id == prev.next_score_id,
        cur.next_extra_id == prev.next_extra_id,
        cur.next_shout_id == prev.next_shout_id,
        cur.leaderboard.wf(),
        forall|q: int|
            cur.leaderboard.contains_player(q) <==> prev.leaderboard.contains_player(q),
        cur.leaderboard.entries@.len() == prev.leaderboard.entries@.len(),
        forall|q: int|
            q != pid && prev.leaderboard.contains_player(q) ==> cur.leaderboard.points_of(q)
                == prev.leaderboard.points_of(q),
        prev.leaderboard.contains_player(pid),
        cur.leaderboard.points_of(pid) == prev.leaderboard.points_of(pid) - sp_of(
            prev.scores@[i],
        ) + sp_of(cur.scores@[i]),
    ensures
        cur.wf(),
{
    assert(cur.players_wf());
    assert(cur.songs_wf());
    assert(cur.scores_wf()) by {
        assert forall|a: int| 0 <= a < cur.scores@.len() implies cur.has_player_id(
            (#[trigger] cur.scores@[a]).player_id as int,
        ) && cur.has_song_id(cur.scores@[a].song_id as int) by {
            assert(prev.scores@[a].player_id == cur.scores@[a].player_id);
            assert(prev.scores@[a].song_id == cur.scores@[a].song_id);
            assert(prev.has_player_id(prev.scores@[a].player_id as int));
            assert(prev.has_song_id(prev.scores@[a].song_id as int));
            let w = choose|w: int|
                0 <= w < prev.players@.len() && (#[trigger] prev.players@[w]).id
                    == cur.scores@[a].player_id;
            assert(cur.players@[w].id == cur.scores@[a].player_id);
            let v = choose|v: int|
                0 <= v < prev.songs@.len() && (#[trigger] prev.songs@[v]).id
                    == cur.scores@[a].song_id;
            assert(cur.songs@[v].id == cur.scores@[a].song_id);
        }
    }
    assert(cur.extras_wf()) by {
        assert forall|a: int| 0 <= a < cur.extra_infos@.len() implies cur.has_song_id(
            (#[trigger] cur.extra_infos@[a]).song_id as int,
        ) by {
            assert(prev.has_song_id(prev.extra_infos@[a].song_id as int));
            let v = choose|v: int|
                0 <= v < prev.songs@.len() && (#[trigger] prev.songs@[v]).id
                    == cur.extra_infos@[a].song_id;
            assert(cur.songs@[v].id == cur.extra_infos@[a].song_id);
        }
    }
    assert(cur.shouts_wf()) by {
        assert forall|a: int| 0 <= a < cur.shouts@.len() implies cur.has_song_id(
            (#[trigger] cur.shouts@[a]).song_id as int,
        ) && cur.has_player_id(cur.shouts@[a].author_id as int) by {
            assert(prev.has_song_id(prev.shouts@[a].song_id as int));
            assert(prev.has_player_id(prev.shouts@[a].author_id as int));
            let v = choose|v: int|
                0 <= v < prev.songs@.len() && (#[trigger] prev.songs@[v]).id
                    == cur.shouts@[a].song_id;
            assert(cur.songs@[v].id == cur.shouts@[a].song_id);
            let w = choose|w: int|
                0 <= w < prev.players@.len() && (#[trigger] prev.players@[w]).id
                    == cur.shouts@[a].author_id;
            assert(cur.players@[w].id == cur.shouts@[a].author_id);
        }
    }
    assert(cur.rivalries_wf()) by {
        assert forall|a: int| 0 <= a < cur.rivalries@.len() implies cur.has_player_id(
            (#[trigger] cur.rivalries@[a]).challenger_id as int,
        ) && cur.has_player_id(cur.rivalries@[a].rival_id as int) by {
            assert(prev.has_player_id(prev.rivalries@[a].challenger_id as int));
            assert(prev.has_player_id(prev.rivalries@[a].rival_id as int));
            let w = choose|w: int|
                0 <= w < prev.players@.len() && (#[trigger] prev.players@[w]).id
                    == cur.rivalries@[a].challenger_id;
            assert(cur.players@[w].id == cur.rivalries@[a].challenger_id);
            let v = choose|v: int|
                0 <= v < prev.players@.len() && (#[trigger] prev.players@[v]).id
                    == cur.rivalries@[a].rival_id;
            assert(cur.players@[v].id == cur.rivalries@[a].rival_id);
        }
    }
    assert(cur.leaderboard_wf()) by {
        assert forall|e: int|
            0 <= e < cur.leaderboard.entries@.len() implies (
        #[trigger] cur.leaderboard.entries@[e]).points as int == sum_sp(
            cur.scores@,
            cur.leaderboard.entries@[e].player_id as int,
        ) && cur.has_player_id(cur.leaderboard.entries@[e].player_id as int) by {
            let q = cur.leaderboard.entries@[e].player_id as int;
            cur.leaderboard.lemma_index_at(e);
            assert(cur.leaderboard.contains_player(q));
            assert(prev.leaderboard.contains_player(q));
            let pe = prev.leaderboard.spec_index_of(q);
            assert(prev.leaderboard.entries@[pe].player_id == q);
            prev.leaderboard.lemma_index_at(pe);
            lemma_sum_sp_update(prev.scores@, i, cur.scores@[i], q);
            if q == pid {
                assert(cur.leaderboard.points_of(q) == prev.leaderboard.points_of(q) - sp_of(
                    prev.scores@[i],
                ) + sp_of(cur.scores@[i]));
                assert(sum_sp(cur.scores@, q) == sum_sp(prev.scores@, q) - sp_of(prev.scores@[i])
                    + sp_of(cur.scores@[i]));
            } else {
                assert(sp_contrib(prev.scores@[i], q) == 0);
                assert(sp_contrib(cur.scores@[i], q) == 0);
                assert(sum_sp(cur.scores@, q) == sum_sp(prev.scores@, q));
            }
            assert(prev.has_player_id(q));
            let w = choose|w: int|
                0 <= w < prev.players@.len() && (#[trigger] prev.players@[w]).id == q;
            assert(cur.players@[w].id == q);
        }
        assert forall|a: int| 0 <= a < cur.players@.len() implies cur.leaderboard.contains_player(
            (#[trigger] cur.players@[a]).id as int,
        ) by {
            assert(prev.leaderboard.contains_player(prev.players@[a].id as int));
        }
    }
}

} // verus!
