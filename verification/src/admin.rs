//! Administrative song deletion.
//!
//! Deleting a song first deletes each of its score rows — every one
//! subtracting its skill points from its player's leaderboard value — then
//! drops the song's metadata row, its shouts and the song row itself.

use vstd::prelude::*;
use crate::models::{Score, Shout};
use crate::store::{extra_index_of, lemma_extra_index_of_at, lemma_song_index_of_at, song_index_of, sp_contrib, sum_sp, Store};
use crate::engine::delete_score;

verus! {

/// The score table without one song's rows, order kept.
pub open spec fn scores_without_song(ss: Seq<Score>, sid: int) -> Seq<Score>
    decreases ss.len(),
{
    if ss.len() == 0 {
        Seq::empty()
    } else {
        scores_without_song(ss.drop_last(), sid) + (if ss.last().song_id == sid {
            Seq::empty()
        } else {
            seq![ss.last()]
        })
    }
}

/// Removing one of the song's rows leaves the filtered table unchanged.
proof fn lemma_without_song_remove(ss: Seq<Score>, sid: int, i: int)
    requires
        0 <= i < ss.len(),
        ss[i].song_id == sid,
    ensures
        scores_without_song(ss.remove(i), sid) == scores_without_song(ss, sid),
    decreases ss.len(),
{
    if i == ss.len() - 1 {
        assert(ss.remove(i) =~= ss.drop_last());
    } else {
        assert(ss.remove(i).drop_last() =~= ss.drop_last().remove(i));
        assert(ss.remove(i).last() == ss.last());
        lemma_without_song_remove(ss.drop_last(), sid, i);
    }
}

/// A table with none of the song's rows is its own filtered table.
pub(crate) proof fn lemma_without_song_identity(ss: Seq<Score>, sid: int)
    requires
        forall|k: int| 0 <= k < ss.len() ==> (#[trigger] ss[k]).song_id != sid,
    ensures
        scores_without_song(ss, sid) == ss,
    decreases ss.len(),
{
    if ss.len() > 0 {
        assert(forall|k: int|
            0 <= k < ss.len() - 1 ==> (#[trigger] ss.drop_last()[k]).song_id != sid);
        lemma_without_song_identity(ss.drop_last(), sid);
        assert(scores_without_song(ss, sid) =~= ss);
    }
}

/// A skill-point sum is bounded by the number of rows.
pub(crate) proof fn lemma_sum_sp_bounded(ss: Seq<Score>, pid: int)
    ensures
        -(ss.len() as int) * 0x8000_0000 <= sum_sp(ss, pid) <= (ss.len() as int) * 0x8000_0000,
    decreases ss.len(),
{
    if ss.len() > 0 {
        lemma_sum_sp_bounded(ss.drop_last(), pid);
        crate::skill::lemma_sp_bounds(
            ss.last().score as int,
            ss.last().gold_threshold as int,
            ss.last().league,
        );
        let n = ss.len() as int;
        assert(sp_contrib(ss.last(), pid) <= 0x8000_0000);
        assert(-0x8000_0000 <= sp_contrib(ss.last(), pid));
        assert(n * 0x8000_0000 == (n - 1) * 0x8000_0000 + 0x8000_0000) by (nonlinear_arith);
        assert(-(n * 0x8000_0000) == -((n - 1) * 0x8000_0000) - 0x8000_0000)
            by (nonlinear_arith);
    }
}

/// The shout table without one song's rows, order kept.
pub open spec fn shouts_without_song(ss: Seq<Shout>, sid: int) -> Seq<Shout>
    decreases ss.len(),
{
    if ss.len() == 0 {
        Seq::empty()
    } else {
        shouts_without_song(ss.drop_last(), sid) + (if ss.last().song_id == sid {
            Seq::empty()
        } else {
            seq![ss.last()]
        })
    }
}

impl Store {
    #[verifier::loop_isolation(false)]
    pub(crate) fn find_score_for_song(&self, sid: i32) -> (r: Option<usize>)
        ensures
            match r {
                Some(i) => i < self.scores@.len() && self.scores@[i as int].song_id == sid,
                None => forall|k: int|
                    0 <= k < self.scores@.len() ==> (#[trigger] self.scores@[k]).song_id != sid,
            },
    {
        let mut i: usize = 0;
        while i < self.scores.len()
            invariant
                i <= self.scores@.len(),
                forall|k: int| 0 <= k < i ==> (#[trigger] self.scores@[k]).song_id != sid,
            decreases self.scores@.len() - i,
        {
            if self.scores[i].song_id == sid {
                return Some(i);
            }
            i = i + 1;
        }
        None
    }
}

/// Deletes every score row of the song, each one paying its skill points
/// back off the leaderboard.
#[verifier::rlimit(60)]
fn purge_song_scores(store: &mut Store, song_id: i32)
    requires
        old(store).wf(),
        old(store).scores@.len() <= 0x4000_0000,
    ensures
        final(store).wf(),
        final(store).players@ == old(store).players@,
        final(store).songs@ == old(store).songs@,
        final(store).extra_infos@ == old(store).extra_infos@,
        final(store).shouts@ == old(store).shouts@,
        final(store).rivalries@ == old(store).rivalries@,
        final(store).scores@ == scores_without_song(old(store).scores@, song_id as int),
        forall|k: int|
            0 <= k < final(store).scores@.len() ==> (#[trigger] final(store).scores@[k]).song_id
                != song_id,
{
    let ghost pre = *store;
    loop
        invariant_except_break
            store.wf(),
            pre.scores@.len() <= 0x4000_0000,
            store.scores@.len() <= pre.scores@.len(),
            scores_without_song(store.scores@, song_id as int) == scores_without_song(
                pre.scores@,
                song_id as int,
            ),
            store.players@ == pre.players@,
            store.songs@ == pre.songs@,
            store.extra_infos@ == pre.extra_infos@,
            store.shouts@ == pre.shouts@,
            store.rivalries@ == pre.rivalries@,
        ensures
            store.wf(),
            scores_without_song(store.scores@, song_id as int) == scores_without_song(
                pre.scores@,
                song_id as int,
            ),
            store.players@ == pre.players@,
            store.songs@ == pre.songs@,
            store.extra_infos@ == pre.extra_infos@,
            store.shouts@ == pre.shouts@,
            store.rivalries@ == pre.rivalries@,
            forall|k: int|
                0 <= k < store.scores@.len() ==> (#[trigger] store.scores@[k]).song_id
                    != song_id,
        decreases store.scores@.len(),
    {
        let i = match store.find_score_for_song(song_id) {
            Some(i) => i,
            None => {
                break ;
            },
        };
        let id = store.scores[i].id;
        proof {
            store.lemma_score_index_at(i as int);
            let owner = store.scores@[i as int].player_id as int;
            assert(store.has_player_id(owner));
            let w = choose|w: int|
                0 <= w < store.players@.len() && (#[trigger] store.players@[w]).id
                    == store.scores@[i as int].player_id;
            assert(store.leaderboard.contains_player(store.players@[w].id as int));
            let pe = store.leaderboard.spec_index_of(owner);
            assert(store.leaderboard.entries@[pe].player_id == owner);
            store.leaderboard.lemma_index_at(pe);
            lemma_sum_sp_bounded(store.scores@, owner);
            assert((store.scores@.len() as int) * 0x8000_0000 <= 0x4000_0000 * 0x8000_0000)
                by (nonlinear_arith)
                requires
                    store.scores@.len() <= 0x4000_0000,
            ;
        }
        let ghost before = *store;
        delete_score(store, id);
        proof {
            lemma_without_song_remove(
                before.scores@,
                song_id as int,
                before.score_index(id as int),
            );
        }
    }
    proof {
        lemma_without_song_identity(store.scores@, song_id as int);
    }
}

/// Drops the song's metadata row, if it has one.
#[verifier::rlimit(60)]
fn remove_song_extra(store: &mut Store, song_id: i32)
    requires
        old(store).wf(),
    ensures
        final(store).wf(),
        final(store).players@ == old(store).players@,
        final(store).songs@ == old(store).songs@,
        final(store).scores@ == old(store).scores@,
        final(store).shouts@ == old(store).shouts@,
        final(store).rivalries@ == old(store).rivalries@,
        final(store).leaderboard == old(store).leaderboard,
        !final(store).has_extra_for_song(song_id as int),
        final(store).extra_infos@ == (if old(store).has_extra_for_song(song_id as int) {
            old(store).extra_infos@.remove(
                extra_index_of(old(store).extra_infos@, song_id as int),
            )
        } else {
            old(store).extra_infos@
        }),
{
    match store.find_extra_for_song(song_id) {
        Some(e) => {
            let ghost mid = *store;
            proof {
                lemma_extra_index_of_at(mid.extra_infos@, e as int);
            }
            store.extra_infos.remove(e);
            proof {
                assert(store.extra_infos@ =~= mid.extra_infos@.remove(e as int));
                assert(store.extras_wf()) by {
                    assert forall|a: int|
                        0 <= a < store.extra_infos@.len() implies store.has_song_id(
                        (#[trigger] store.extra_infos@[a]).song_id as int,
                    ) by {
                        let src = if a < e as int {
                            a
                        } else {
                            a + 1
                        };
                        assert(store.extra_infos@[a] == mid.extra_infos@[src]);
                        assert(mid.has_song_id(mid.extra_infos@[src].song_id as int));
                        let v = choose|v: int|
                            0 <= v < mid.songs@.len() && (#[trigger] mid.songs@[v]).id
                                == store.extra_infos@[a].song_id;
                        assert(store.songs@[v].id == store.extra_infos@[a].song_id);
                    }
                }
                assert(!store.has_extra_for_song(song_id as int)) by {
                    if store.has_extra_for_song(song_id as int) {
                        let a = choose|a: int|
                            0 <= a < store.extra_infos@.len() && (
                            #[trigger] store.extra_infos@[a]).song_id == song_id;
                        let src = if a < e as int {
                            a
                        } else {
                            a + 1
                        };
                        assert(store.extra_infos@[a] == mid.extra_infos@[src]);
                        assert(src != e as int);
                        assert(mid.extra_infos@[src].song_id
                            != mid.extra_infos@[e as int].song_id);
                    }
                }
            }
        },
        None => {},
    }
}

/// Drops the song's shouts.
#[verifier::loop_isolation(false)]
#[verifier::rlimit(60)]
fn remove_song_shouts(store: &mut Store, song_id: i32)
    requires
        old(store).wf(),
    ensures
        final(store).wf(),
        final(store).players@ == old(store).players@,
        final(store).songs@ == old(store).songs@,
        final(store).scores@ == old(store).scores@,
        final(store).extra_infos@ == old(store).extra_infos@,
        final(store).rivalries@ == old(store).rivalries@,
        final(store).leaderboard == old(store).leaderboard,
        forall|k: int|
            0 <= k < final(store).shouts@.len() ==> (#[trigger] final(store).shouts@[k]).song_id
                != song_id,
        final(store).shouts@ == shouts_without_song(old(store).shouts@, song_id as int),
{
    let mut kept: Vec<Shout> = Vec::new();
    let ghost mid2 = *store;
    let n = store.shouts.len();
    let mut i2: usize = 0;
    while i2 < n
        invariant
            i2 <= n == store.shouts@.len(),
            *store == mid2,
            kept@ == shouts_without_song(mid2.shouts@.take(i2 as int), song_id as int),
            forall|x: int|
                0 <= x < kept@.len() ==> (#[trigger] kept@[x]).song_id != song_id,
            forall|x: int|
                0 <= x < kept@.len() ==> exists|y: int|
                    0 <= y < i2 && (#[trigger] mid2.shouts@[y]) == (#[trigger] kept@[x]),
            forall|x: int, y: int|
                0 <= x < y < kept@.len() ==> (#[trigger] kept@[x]).id != (
                #[trigger] kept@[y]).id,
        decreases n - i2,
    {
        proof {
            assert(mid2.shouts@.take(i2 + 1).drop_last() =~= mid2.shouts@.take(i2 as int));
            assert(mid2.shouts@.take(i2 + 1).last() == mid2.shouts@[i2 as int]);
        }
        if !(store.shouts[i2].song_id == song_id) {
            let s = &store.shouts[i2];
            let ghost prev_kept = kept@;
            kept.push(
                Shout {
                    id: s.id,
                    song_id: s.song_id,
                    author_id: s.author_id,
                    posted_at: s.posted_at,
                    content: s.content.clone(),
                },
            );
            proof {
                let m = kept@.len() - 1;
                assert(kept@[m].id == mid2.shouts@[i2 as int].id);
                assert(kept@[m].song_id == mid2.shouts@[i2 as int].song_id);
                assert(kept@[m].author_id == mid2.shouts@[i2 as int].author_id);
                assert(kept@[m].posted_at == mid2.shouts@[i2 as int].posted_at);
                assert(kept@[m].content == mid2.shouts@[i2 as int].content);
                assert(kept@[m] == mid2.shouts@[i2 as int]);
                assert(kept@ =~= shouts_without_song(
                    mid2.shouts@.take(i2 + 1),
                    song_id as int,
                ));
                assert forall|x: int, y: int|
                    0 <= x < y < kept@.len() implies (#[trigger] kept@[x]).id != (
                #[trigger] kept@[y]).id by {
                    if y == m {
                        let w = choose|w: int|
                            0 <= w < i2 && (#[trigger] mid2.shouts@[w]) == kept@[x];
                        assert(mid2.shouts@[w].id != mid2.shouts@[i2 as int].id);
                    }
                }
            }
        } else {
            proof {
                assert(kept@ =~= shouts_without_song(mid2.shouts@.take(i2 + 1), song_id as int));
            }
        }
        i2 = i2 + 1;
    }
    proof {
        assert(mid2.shouts@.take(n as int) =~= mid2.shouts@);
    }
    store.shouts = kept;
    proof {
        assert(store.shouts_wf()) by {
            assert forall|x: int| 0 <= x < store.shouts@.len() implies store.has_song_id(
                (#[trigger] store.shouts@[x]).song_id as int,
            ) && store.has_player_id(store.shouts@[x].author_id as int)
                && store.shouts@[x].id < store.next_shout_id by {
                let w = choose|w: int|
                    0 <= w < mid2.shouts@.len() && (#[trigger] mid2.shouts@[w])
                        == store.shouts@[x];
                assert(mid2.has_song_id(mid2.shouts@[w].song_id as int));
                assert(mid2.has_player_id(mid2.shouts@[w].author_id as int));
                let v = choose|v: int|
                    0 <= v < mid2.songs@.len() && (#[trigger] mid2.songs@[v]).id
                        == store.shouts@[x].song_id;
                assert(store.songs@[v].id == store.shouts@[x].song_id);
                let u = choose|u: int|
                    0 <= u < mid2.players@.len() && (#[trigger] mid2.players@[u]).id
                        == store.shouts@[x].author_id;
                assert(store.players@[u].id == store.shouts@[x].author_id);
            }
        }
    }
}

/// Drops the song row itself, once nothing references it.
#[verifier::rlimit(100)]
fn remove_song_row(store: &mut Store, song_id: i32)
    requires
        old(store).wf(),
        old(store).has_song_id(song_id as int),
        forall|k: int|
            0 <= k < old(store).scores@.len() ==> (#[trigger] old(store).scores@[k]).song_id
                != song_id,
        !old(store).has_extra_for_song(song_id as int),
        forall|k: int|
            0 <= k < old(store).shouts@.len() ==> (#[trigger] old(store).shouts@[k]).song_id
                != song_id,
    ensures
        final(store).wf(),
        final(store).players@ == old(store).players@,
        final(store).scores@ == old(store).scores@,
        final(store).extra_infos@ == old(store).extra_infos@,
        final(store).shouts@ == old(store).shouts@,
        final(store).rivalries@ == old(store).rivalries@,
        final(store).leaderboard == old(store).leaderboard,
        !final(store).has_song_id(song_id as int),
        final(store).songs@ == old(store).songs@.remove(
            song_index_of(old(store).songs@, song_id as int),
        ),
{
    let si2 = match store.find_song(song_id) {
        Some(i) => i,
        None => {
            proof {
                assert(false);
            }
            0
        },
    };
    let ghost mid3 = *store;
    proof {
        lemma_song_index_of_at(mid3.songs@, si2 as int);
    }
    store.songs.remove(si2);
    proof {
        assert(store.songs@ =~= mid3.songs@.remove(si2 as int));
        assert(store.songs_wf()) by {
            assert forall|a: int, b: int|
                0 <= a < b < store.songs@.len() implies (#[trigger] store.songs@[a]).id != (
            #[trigger] store.songs@[b]).id by {
                let sa = if a < si2 as int {
                    a
                } else {
                    a + 1
                };
                let sb = if b < si2 as int {
                    b
                } else {
                    b + 1
                };
                assert(store.songs@[a] == mid3.songs@[sa]);
                assert(store.songs@[b] == mid3.songs@[sb]);
            }
        }
        assert(!store.has_song_id(song_id as int)) by {
            if store.has_song_id(song_id as int) {
                let w = choose|w: int|
                    0 <= w < store.songs@.len() && (#[trigger] store.songs@[w]).id == song_id;
                let sw = if w < si2 as int {
                    w
                } else {
                    w + 1
                };
                assert(store.songs@[w] == mid3.songs@[sw]);
                assert(sw != si2 as int);
                assert(mid3.songs@[sw].id != mid3.songs@[si2 as int].id);
            }
        }
        assert(store.scores_wf()) by {
            assert forall|x: int| 0 <= x < store.scores@.len() implies store.has_song_id(
                (#[trigger] store.scores@[x]).song_id as int,
            ) && store.has_player_id(store.scores@[x].player_id as int) by {
                assert(mid3.has_song_id(mid3.scores@[x].song_id as int));
                assert(mid3.scores@[x].song_id != song_id);
                let v = choose|v: int|
                    0 <= v < mid3.songs@.len() && (#[trigger] mid3.songs@[v]).id
                        == store.scores@[x].song_id;
                assert(v != si2 as int);
                let dst = if v < si2 as int {
                    v
                } else {
                    v - 1
                };
                assert(store.songs@[dst] == mid3.songs@[v]);
                assert(mid3.has_player_id(mid3.scores@[x].player_id as int));
                let u = choose|u: int|
                    0 <= u < mid3.players@.len() && (#[trigger] mid3.players@[u]).id
                        == store.scores@[x].player_id;
                assert(store.players@[u].id == store.scores@[x].player_id);
            }
        }
        assert(store.extras_wf()) by {
            assert forall|x: int| 0 <= x < store.extra_infos@.len() implies store.has_song_id(
                (#[trigger] store.extra_infos@[x]).song_id as int,
            ) by {
                assert(mid3.has_song_id(mid3.extra_infos@[x].song_id as int));
                assert(!mid3.has_extra_for_song(song_id as int));
                assert(mid3.extra_infos@[x].song_id != song_id);
                let v = choose|v: int|
                    0 <= v < mid3.songs@.len() && (#[trigger] mid3.songs@[v]).id
                        == store.extra_infos@[x].song_id;
                assert(v != si2 as int);
                let dst = if v < si2 as int {
                    v
                } else {
                    v - 1
                };
                assert(store.songs@[dst] == mid3.songs@[v]);
            }
        }
        assert(store.shouts_wf()) by {
            assert forall|x: int| 0 <= x < store.shouts@.len() implies store.has_song_id(
                (#[trigger] store.shouts@[x]).song_id as int,
            ) && store.has_player_id(store.shouts@[x].author_id as int) by {
                assert(mid3.has_song_id(mid3.shouts@[x].song_id as int));
                assert(mid3.shouts@[x].song_id != song_id);
                let v = choose|v: int|
                    0 <= v < mid3.songs@.len() && (#[trigger] mid3.songs@[v]).id
                        == store.shouts@[x].song_id;
                assert(v != si2 as int);
                let dst = if v < si2 as int {
                    v
                } else {
                    v - 1
                };
                assert(store.songs@[dst] == mid3.songs@[v]);
                assert(mid3.has_player_id(mid3.shouts@[x].author_id as int));
                let u = choose|u: int|
                    0 <= u < mid3.players@.len() && (#[trigger] mid3.players@[u]).id
                        == store.shouts@[x].author_id;
                assert(store.players@[u].id == store.shouts@[x].author_id);
            }
        }
        assert(store.leaderboard_wf()) by {
            assert forall|e2: int|
                0 <= e2 < store.leaderboard.entries@.len() implies store.has_player_id(
                (#[trigger] store.leaderboard.entries@[e2]).player_id as int,
            ) by {
                assert(mid3.has_player_id(mid3.leaderboard.entries@[e2].player_id as int));
                let u = choose|u: int|
                    0 <= u < mid3.players@.len() && (#[trigger] mid3.players@[u]).id
                        == store.leaderboard.entries@[e2].player_id;
                assert(store.players@[u].id == store.leaderboard.entries@[e2].player_id);
            }
            assert forall|x: int|
                0 <= x < store.players@.len() implies store.leaderboard.contains_player(
                (#[trigger] store.players@[x]).id as int,
            ) by {
                assert(mid3.leaderboard.contains_player(mid3.players@[x].id as int));
            }
        }
    }
}

/// Deletes a song: its scores go first — each one paying its skill points
/// back off the leaderboard — then its metadata row, its shouts, and the
/// song itself. Returns whether the song existed.
pub fn delete_song(store: &mut Store, song_id: i32) -> (r: bool)
    requires
        old(store).wf(),
        old(store).scores@.len() <= 0x4000_0000,
    ensures
        final(store).wf(),
        r == old(store).has_song_id(song_id as int),
        !r ==> *final(store) == *old(store),
        final(store).players@ == old(store).players@,
        final(store).rivalries@ == old(store).rivalries@,
        r ==> !final(store).has_song_id(song_id as int),
        r ==> final(store).scores@ == scores_without_song(old(store).scores@, song_id as int),
        r ==> !final(store).has_extra_for_song(song_id as int),
        r ==> final(store).songs@ == old(store).songs@.remove(
            song_index_of(old(store).songs@, song_id as int),
        ),
        r ==> final(store).extra_infos@ == (if old(store).has_extra_for_song(song_id as int) {
            old(store).extra_infos@.remove(
                extra_index_of(old(store).extra_infos@, song_id as int),
            )
        } else {
            old(store).extra_infos@
        }),
        r ==> final(store).shouts@ == shouts_without_song(old(store).shouts@, song_id as int),
        r ==> forall|k: int|
            0 <= k < final(store).shouts@.len() ==> (#[trigger] final(store).shouts@[k]).song_id
                != song_id,
{
    if store.find_song(song_id).is_none() {
        return false;
    }
    purge_song_scores(store, song_id);
    let ghost after_purge = *store;
    proof {
        // the purge left the other tables alone, so the presence of a
        // metadata row reads the same before and after
        assert(after_purge.has_extra_for_song(song_id as int) <==> old(
            store,
        ).has_extra_for_song(song_id as int)) by {
            if old(store).has_extra_for_song(song_id as int) {
                let w = choose|w: int|
                    0 <= w < old(store).extra_infos@.len() && (
                    #[trigger] old(store).extra_infos@[w]).song_id == song_id;
                assert(after_purge.extra_infos@[w].song_id == song_id);
            }
            if after_purge.has_extra_for_song(song_id as int) {
                let w = choose|w: int|
                    0 <= w < after_purge.extra_infos@.len() && (
                    #[trigger] after_purge.extra_infos@[w]).song_id == song_id;
                assert(old(store).extra_infos@[w].song_id == song_id);
            }
        }
    }
    remove_song_extra(store, song_id);
    remove_song_shouts(store, song_id);
    proof {
        assert(store.has_song_id(song_id as int)) by {
            let w = choose|w: int|
                0 <= w < old(store).songs@.len() && (#[trigger] old(store).songs@[w]).id
                    == song_id;
            assert(store.songs@[w].id == song_id);
        }
    }
    remove_song_row(store, song_id);
    true
}

} // verus!
