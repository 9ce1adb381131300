//! Administrative song merging.
//!
//! Merging folds every score of a source song into a target song: for each
//! player and league holding a row on either song, exactly one row survives
//! on the target, carrying the higher score and the sum of both play
//! counts; the loser's skill points are paid back off the leaderboard.
//! Optionally the source's title and artist join the target's alias lists,
//! and the source song is deleted at the end.

use vstd::prelude::*;
use crate::engine::{clone_strings, copy_i32s, delete_score};
use crate::game_types::League;
use crate::models::{NewExtraSongInfo, Score};
use crate::queries::song_score_count;
use crate::store::Store;

verus! {

/// The score the surviving row carries: the higher of the two, or the one
/// that exists. Meaningful only where a row exists on either song.
pub open spec fn merged_score(pre: Store, src: int, tgt: int, p: int, l: League) -> int {
    let a = pre.has_pb(p, src, l);
    let b = pre.has_pb(p, tgt, l);
    if a && b {
        let sr = pre.scores@[pre.pb_index(p, src, l)];
        let tr = pre.scores@[pre.pb_index(p, tgt, l)];
        if tr.score < sr.score {
            sr.score as int
        } else {
            tr.score as int
        }
    } else if a {
        pre.scores@[pre.pb_index(p, src, l)].score as int
    } else {
        pre.scores@[pre.pb_index(p, tgt, l)].score as int
    }
}

/// The play count the surviving row carries: the sum where both rows
/// existed, otherwise the one count.
pub open spec fn merged_plays(pre: Store, src: int, tgt: int, p: int, l: League) -> int {
    let a = pre.has_pb(p, src, l);
    let b = pre.has_pb(p, tgt, l);
    if a && b {
        pre.scores@[pre.pb_index(p, src, l)].play_count + pre.scores@[pre.pb_index(
            p,
            tgt,
            l,
        )].play_count
    } else if a {
        pre.scores@[pre.pb_index(p, src, l)].play_count as int
    } else {
        pre.scores@[pre.pb_index(p, tgt, l)].play_count as int
    }
}

/// This player-league pair has been folded: no row on the source, and —
/// exactly when a row existed on either song — one surviving target row
/// with the merged score and plays.
#[verifier::opaque]
pub open spec fn merge_pair_done(pre: Store, cur: Store, src: int, tgt: int, p: int, l: League) -> bool {
    &&& !cur.has_pb(p, src, l)
    &&& if pre.has_pb(p, src, l) || pre.has_pb(p, tgt, l) {
        &&& cur.has_pb(p, tgt, l)
        &&& ({
            let fr = cur.scores@[cur.pb_index(p, tgt, l)];
            &&& fr.score as int == merged_score(pre, src, tgt, p, l)
            &&& fr.play_count as int == merged_plays(pre, src, tgt, p, l)
        })
    } else {
        !cur.has_pb(p, tgt, l)
    }
}

/// This player-league pair is still waiting: its rows stand exactly as
/// they did before the merge began.
#[verifier::opaque]
pub open spec fn merge_pair_pending(pre: Store, cur: Store, src: int, tgt: int, p: int, l: League) -> bool {
    &&& pre.has_pb(p, src, l)
    &&& cur.has_pb(p, src, l)
    &&& cur.scores@[cur.pb_index(p, src, l)] == pre.scores@[pre.pb_index(p, src, l)]
    &&& (pre.has_pb(p, tgt, l) <==> cur.has_pb(p, tgt, l))
    &&& (pre.has_pb(p, tgt, l) ==> cur.scores@[cur.pb_index(p, tgt, l)]
        == pre.scores@[pre.pb_index(p, tgt, l)])
}

/// The score table restricted to songs other than these two, order kept.
pub open spec fn scores_of_others(ss: Seq<Score>, a: int, b: int) -> Seq<Score>
    decreases ss.len(),
{
    if ss.len() == 0 {
        Seq::empty()
    } else {
        scores_of_others(ss.drop_last(), a, b) + (if ss.last().song_id == a || ss.last().song_id
            == b {
            Seq::empty()
        } else {
            seq![ss.last()]
        })
    }
}

proof fn lemma_others_update(ss: Seq<Score>, i: int, x: Score, a: int, b: int)
    requires
        0 <= i < ss.len(),
        ss[i].song_id == a || ss[i].song_id == b,
        x.song_id == a || x.song_id == b,
    ensures
        scores_of_others(ss.update(i, x), a, b) == scores_of_others(ss, a, b),
    decreases ss.len(),
{
    if i == ss.len() - 1 {
        assert(ss.update(i, x).drop_last() =~= ss.drop_last());
        assert(ss.update(i, x).last() == x);
    } else {
        assert(ss.update(i, x).drop_last() =~= ss.drop_last().update(i, x));
        assert(ss.update(i, x).last() == ss.last());
        lemma_others_update(ss.drop_last(), i, x, a, b);
    }
}

proof fn lemma_others_remove(ss: Seq<Score>, i: int, a: int, b: int)
    requires
        0 <= i < ss.len(),
        ss[i].song_id == a || ss[i].song_id == b,
    ensures
        scores_of_others(ss.remove(i), a, b) == scores_of_others(ss, a, b),
    decreases ss.len(),
{
    if i == ss.len() - 1 {
        assert(ss.remove(i) =~= ss.drop_last());
    } else {
        assert(ss.remove(i).drop_last() =~= ss.drop_last().remove(i));
        assert(ss.remove(i).last() == ss.last());
        lemma_others_remove(ss.drop_last(), i, a, b);
    }
}

proof fn lemma_count_nonneg(ss: Seq<Score>, sid: int)
    ensures
        song_score_count(ss, sid) >= 0,
    decreases ss.len(),
{
    if ss.len() > 0 {
        lemma_count_nonneg(ss.drop_last(), sid);
    }
}

proof fn lemma_count_update(ss: Seq<Score>, i: int, x: Score, sid: int)
    requires
        0 <= i < ss.len(),
    ensures
        song_score_count(ss.update(i, x), sid) == song_score_count(ss, sid) - (
        if ss[i].song_id == sid {
            1int
        } else {
            0int
        }) + (if x.song_id == sid {
            1int
        } else {
            0int
        }),
    decreases ss.len(),
{
    if i == ss.len() - 1 {
        assert(ss.update(i, x).drop_last() =~= ss.drop_last());
        assert(ss.update(i, x).last() == x);
    } else {
        assert(ss.update(i, x).drop_last() =~= ss.drop_last().update(i, x));
        assert(ss.update(i, x).last() == ss.last());
        lemma_count_update(ss.drop_last(), i, x, sid);
    }
}

proof fn lemma_count_remove(ss: Seq<Score>, i: int, sid: int)
    requires
        0 <= i < ss.len(),
    ensures
        song_score_count(ss.remove(i), sid) == song_score_count(ss, sid) - (
        if ss[i].song_id == sid {
            1int
        } else {
            0int
        }),
    decreases ss.len(),
{
    if i == ss.len() - 1 {
        assert(ss.remove(i) =~= ss.drop_last());
    } else {
        assert(ss.remove(i).drop_last() =~= ss.drop_last().remove(i));
        assert(ss.remove(i).last() == ss.last());
        lemma_count_remove(ss.drop_last(), i, sid);
    }
}

/// Rows of other player-league pairs survive an in-place rewrite of one
/// pair's row (on either song) untouched.
proof fn lemma_pairs_other_update(
    head: Store,
    cur: Store,
    i: int,
    p0: int,
    l0: League,
    src: int,
    tgt: int,
)
    requires
        head.scores_wf(),
        cur.scores_wf(),
        0 <= i < head.scores@.len(),
        cur.scores@.len() == head.scores@.len(),
        forall|k: int| 0 <= k < head.scores@.len() && k != i ==> cur.scores@[k]
            == head.scores@[k],
        head.scores@[i].player_id == p0 && head.scores@[i].league == l0,
        cur.scores@[i].player_id == p0 && cur.scores@[i].league == l0,
    ensures
        forall|p2: int, l2: League|
            !(p2 == p0 && l2 == l0) ==> #[trigger] pair_untouched(head, cur, src, tgt, p2, l2),
{
    assert forall|p2: int, l2: League| !(p2 == p0 && l2 == l0) implies #[trigger] pair_untouched(
        head,
        cur,
        src,
        tgt,
        p2,
        l2,
    ) by {
        reveal(pair_untouched);
        lemma_one_song_untouched_update(head, cur, i, p0, l0, src, p2, l2);
        lemma_one_song_untouched_update(head, cur, i, p0, l0, tgt, p2, l2);
    }
}

/// One side of `lemma_pairs_other_update`, for one song id.
proof fn lemma_one_song_untouched_update(
    head: Store,
    cur: Store,
    i: int,
    p0: int,
    l0: League,
    sid: int,
    p2: int,
    l2: League,
)
    requires
        head.scores_wf(),
        cur.scores_wf(),
        0 <= i < head.scores@.len(),
        cur.scores@.len() == head.scores@.len(),
        forall|k: int| 0 <= k < head.scores@.len() && k != i ==> cur.scores@[k]
            == head.scores@[k],
        head.scores@[i].player_id == p0 && head.scores@[i].league == l0,
        cur.scores@[i].player_id == p0 && cur.scores@[i].league == l0,
        !(p2 == p0 && l2 == l0),
    ensures
        cur.has_pb(p2, sid, l2) <==> head.has_pb(p2, sid, l2),
        head.has_pb(p2, sid, l2) ==> cur.scores@[cur.pb_index(p2, sid, l2)]
            == head.scores@[head.pb_index(p2, sid, l2)],
{
    if head.has_pb(p2, sid, l2) {
        let w = head.pb_index(p2, sid, l2);
        assert(head.scores@[w].player_id == p2 && head.scores@[w].song_id == sid
            && head.scores@[w].league == l2) by {
            let w0 = choose|w0: int|
                0 <= w0 < head.scores@.len() && (#[trigger] head.scores@[w0]).player_id == p2
                    && head.scores@[w0].song_id == sid && head.scores@[w0].league == l2;
            head.lemma_pb_index_at(w0);
        }
        assert(w != i);
        assert(cur.scores@[w] == head.scores@[w]);
        assert(cur.has_pb(p2, sid, l2));
        cur.lemma_pb_index_at(w);
    }
    if cur.has_pb(p2, sid, l2) {
        let w = choose|w: int|
            0 <= w < cur.scores@.len() && (#[trigger] cur.scores@[w]).player_id == p2
                && cur.scores@[w].song_id == sid && cur.scores@[w].league == l2;
        assert(w != i);
        assert(head.scores@[w] == cur.scores@[w]);
        assert(head.has_pb(p2, sid, l2));
    }
}

/// Both songs' rows of one player-league pair stand as they did.
#[verifier::opaque]
pub open spec fn pair_untouched(head: Store, cur: Store, src: int, tgt: int, p: int, l: League) -> bool {
    &&& (cur.has_pb(p, src, l) <==> head.has_pb(p, src, l))
    &&& (cur.has_pb(p, tgt, l) <==> head.has_pb(p, tgt, l))
    &&& (head.has_pb(p, src, l) ==> cur.scores@[cur.pb_index(p, src, l)]
        == head.scores@[head.pb_index(p, src, l)])
    &&& (head.has_pb(p, tgt, l) ==> cur.scores@[cur.pb_index(p, tgt, l)]
        == head.scores@[head.pb_index(p, tgt, l)])
}


/// The merge loop's working state: the store is well-formed, only the
/// score table and leaderboard have moved, every pair reads as folded or
/// untouched, and rows of other songs stand exactly as before.
pub open spec fn merge_loop_inv(pre: Store, cur: Store, src: int, tgt: int) -> bool {
    &&& cur.wf()
    &&& pre.wf()
    &&& pre.scores@.len() <= 0x4000_0000
    &&& cur.scores@.len() <= pre.scores@.len()
    &&& (forall|k: int|
        0 <= k < pre.scores@.len() ==> 0 <= (#[trigger] pre.scores@[k]).play_count
            <= 0x3FFF_FFFF)
    &&& src != tgt
    &&& pre.has_song_id(tgt)
    &&& cur.players@ == pre.players@
    &&& cur.songs@ == pre.songs@
    &&& cur.extra_infos@ == pre.extra_infos@
    &&& cur.shouts@ == pre.shouts@
    &&& cur.rivalries@ == pre.rivalries@
    &&& cur.next_extra_id == pre.next_extra_id
    &&& (forall|p: int, l: League|
        #[trigger] merge_pair_done(pre, cur, src, tgt, p, l) || merge_pair_pending(
            pre,
            cur,
            src,
            tgt,
            p,
            l,
        ))
    &&& scores_of_others(cur.scores@, src, tgt) == scores_of_others(pre.scores@, src, tgt)
}

/// Rows of other player-league pairs survive the removal of one pair's row
/// untouched.
proof fn lemma_pairs_other_remove(head: Store, cur: Store, i: int, p0: int, l0: League, src: int, tgt: int)
    requires
        head.scores_wf(),
        cur.scores_wf(),
        0 <= i < head.scores@.len(),
        cur.scores@ == head.scores@.remove(i),
        head.scores@[i].player_id == p0 && head.scores@[i].league == l0,
    ensures
        forall|p2: int, l2: League|
            !(p2 == p0 && l2 == l0) ==> #[trigger] pair_untouched(head, cur, src, tgt, p2, l2),
{
    assert forall|p2: int, l2: League| !(p2 == p0 && l2 == l0) implies #[trigger] pair_untouched(
        head,
        cur,
        src,
        tgt,
        p2,
        l2,
    ) by {
        reveal(pair_untouched);
        lemma_one_song_untouched_remove(head, cur, i, p0, l0, src, p2, l2);
        lemma_one_song_untouched_remove(head, cur, i, p0, l0, tgt, p2, l2);
    }
}

/// One side of `lemma_pairs_other_remove`, for one song id.
proof fn lemma_one_song_untouched_remove(
    head: Store,
    cur: Store,
    i: int,
    p0: int,
    l0: League,
    sid: int,
    p2: int,
    l2: League,
)
    requires
        head.scores_wf(),
        cur.scores_wf(),
        0 <= i < head.scores@.len(),
        cur.scores@ == head.scores@.remove(i),
        head.scores@[i].player_id == p0 && head.scores@[i].league == l0,
        !(p2 == p0 && l2 == l0),
    ensures
        cur.has_pb(p2, sid, l2) <==> head.has_pb(p2, sid, l2),
        head.has_pb(p2, sid, l2) ==> cur.scores@[cur.pb_index(p2, sid, l2)]
            == head.scores@[head.pb_index(p2, sid, l2)],
{
    if head.has_pb(p2, sid, l2) {
        let w = head.pb_index(p2, sid, l2);
        assert(head.scores@[w].player_id == p2 && head.scores@[w].song_id == sid
            && head.scores@[w].league == l2) by {
            let w0 = choose|w0: int|
                0 <= w0 < head.scores@.len() && (#[trigger] head.scores@[w0]).player_id == p2
                    && head.scores@[w0].song_id == sid && head.scores@[w0].league == l2;
            head.lemma_pb_index_at(w0);
        }
        assert(w != i);
        let dst = if w < i {
            w
        } else {
            w - 1
        };
        assert(cur.scores@[dst] == head.scores@[w]);
        assert(cur.has_pb(p2, sid, l2));
        cur.lemma_pb_index_at(dst);
    }
    if cur.has_pb(p2, sid, l2) {
        let w = choose|w: int|
            0 <= w < cur.scores@.len() && (#[trigger] cur.scores@[w]).player_id == p2
                && cur.scores@[w].song_id == sid && cur.scores@[w].league == l2;
        let srcw = if w < i {
            w
        } else {
            w + 1
        };
        assert(head.scores@[srcw] == cur.scores@[w]);
        assert(head.has_pb(p2, sid, l2));
    }
}

/// Replacing one pair's row with a row of the same player, league and id
/// but moved to the target song — where that pair holds no target row —
/// keeps the store well-formed without moving the leaderboard.
proof fn merge_move_wf(head: Store, cur: Store, i: int, tgt: int)
    requires
        head.wf(),
        0 <= i < head.scores@.len(),
        cur.scores@.len() == head.scores@.len(),
        forall|k: int| 0 <= k < head.scores@.len() && k != i ==> cur.scores@[k]
            == head.scores@[k],
        cur.scores@[i].id == head.scores@[i].id,
        cur.scores@[i].player_id == head.scores@[i].player_id,
        cur.scores@[i].league == head.scores@[i].league,
        cur.scores@[i].score == head.scores@[i].score,
        cur.scores@[i].gold_threshold == head.scores@[i].gold_threshold,
        cur.scores@[i].song_id == tgt,
        head.has_song_id(tgt),
        !head.has_pb(
            head.scores@[i].player_id as int,
            tgt,
            head.scores@[i].league,
        ),
        cur.players@ == head.players@,
        cur.songs@ == head.songs@,
        cur.extra_infos@ == head.extra_infos@,
        cur.shouts@ == head.shouts@,
        cur.rivalries@ == head.rivalries@,
        cur.leaderboard == head.leaderboard,
        cur.next_player_id == head.next_player_id,
        cur.next_song_id == head.next_song_id,
        cur.next_score_id == head.next_score_id,
        cur.next_extra_id == head.next_extra_id,
        cur.next_shout_id == head.next_shout_id,
    ensures
        cur.wf(),
{
    assert(cur.scores@ =~= head.scores@.update(i, cur.scores@[i]));
    assert(cur.players_wf());
    assert(cur.songs_wf());
    assert(cur.scores_wf()) by {
        assert forall|a: int, b: int|
            0 <= a < b < cur.scores@.len() implies !((#[trigger] cur.scores@[a]).player_id == (
        #[trigger] cur.scores@[b]).player_id && cur.scores@[a].song_id == cur.scores@[b].song_id
            && cur.scores@[a].league == cur.scores@[b].league) by {
            if a == i || b == i {
                let other = if a == i {
                    b
                } else {
                    a
                };
                if cur.scores@[other].player_id == cur.scores@[i].player_id
                    && cur.scores@[other].song_id == tgt && cur.scores@[other].league
                    == cur.scores@[i].league {
                    assert(head.scores@[other] == cur.scores@[other]);
                    assert(head.has_pb(
                        head.scores@[i].player_id as int,
                        tgt,
                        head.scores@[i].league,
                    ));
                }
            }
        }
        assert forall|a: int| 0 <= a < cur.scores@.len() implies cur.has_player_id(
            (#[trigger] cur.scores@[a]).player_id as int,
        ) && cur.has_song_id(cur.scores@[a].song_id as int) by {
            assert(head.has_player_id(head.scores@[a].player_id as int));
            let w = choose|w: int|
                0 <= w < head.players@.len() && (#[trigger] head.players@[w]).id
                    == cur.scores@[a].player_id;
            assert(cur.players@[w].id == cur.scores@[a].player_id);
            if a == i {
                assert(head.has_song_id(tgt));
            } else {
                assert(head.has_song_id(head.scores@[a].song_id as int));
            }
            let v = choose|v: int|
                0 <= v < head.songs@.len() && (#[trigger] head.songs@[v]).id
                    == cur.scores@[a].song_id;
            assert(cur.songs@[v].id == cur.scores@[a].song_id);
        }
    }
    crate::metadata::store_untouched_extras_wf(head, cur);
    assert(cur.leaderboard_wf()) by {
        assert forall|e: int|
            0 <= e < cur.leaderboard.entries@.len() implies (
        #[trigger] cur.leaderboard.entries@[e]).points as int == crate::store::sum_sp(
            cur.scores@,
            cur.leaderboard.entries@[e].player_id as int,
        ) && cur.has_player_id(cur.leaderboard.entries@[e].player_id as int) by {
            let q = cur.leaderboard.entries@[e].player_id as int;
            crate::store::lemma_sum_sp_update(head.scores@, i, cur.scores@[i], q);
            assert(crate::store::sp_contrib(head.scores@[i], q) == crate::store::sp_contrib(
                cur.scores@[i],
                q,
            ));
            assert(head.has_player_id(q));
            let w = choose|w: int|
                0 <= w < head.players@.len() && (#[trigger] head.players@[w]).id == q;
            assert(cur.players@[w].id == q);
        }
        assert forall|x: int|
            0 <= x < cur.players@.len() implies cur.leaderboard.contains_player(
            (#[trigger] cur.players@[x]).id as int,
        ) by {
            assert(head.leaderboard.contains_player(head.players@[x].id as int));
        }
    }
}

proof fn lemma_song_pb_transfer(a: Store, b: Store, sid: int, p: int, l: League)
    requires
        a.scores_wf(),
        b.scores_wf(),
        b.scores@ == a.scores@,
    ensures
        b.has_pb(p, sid, l) <==> a.has_pb(p, sid, l),
        a.has_pb(p, sid, l) ==> b.scores@[b.pb_index(p, sid, l)] == a.scores@[a.pb_index(
            p,
            sid,
            l,
        )],
{
    if a.has_pb(p, sid, l) {
        let w = choose|w: int|
            0 <= w < a.scores@.len() && (#[trigger] a.scores@[w]).player_id == p
                && a.scores@[w].song_id == sid && a.scores@[w].league == l;
        assert(b.scores@[w].player_id == p && b.scores@[w].song_id == sid && b.scores@[w].league
            == l);
        assert(b.has_pb(p, sid, l));
        a.lemma_pb_index_at(w);
        b.lemma_pb_index_at(w);
    }
    if b.has_pb(p, sid, l) {
        let w = choose|w: int|
            0 <= w < b.scores@.len() && (#[trigger] b.scores@[w]).player_id == p
                && b.scores@[w].song_id == sid && b.scores@[w].league == l;
        assert(a.scores@[w].player_id == p);
        assert(a.has_pb(p, sid, l));
    }
}

/// One pair's reading relative to the starting store survives an operation
/// that left both of its rows untouched.
proof fn lemma_pair_state_via_untouched(
    pre: Store,
    head: Store,
    cur: Store,
    src: int,
    tgt: int,
    p: int,
    l: League,
)
    requires
        pair_untouched(head, cur, src, tgt, p, l),
        merge_pair_done(pre, head, src, tgt, p, l) || merge_pair_pending(pre, head, src, tgt, p, l),
    ensures
        merge_pair_done(pre, cur, src, tgt, p, l) || merge_pair_pending(pre, cur, src, tgt, p, l),
{
    reveal(merge_pair_done);
    reveal(merge_pair_pending);
    reveal(pair_untouched);
}


/// Combines one folded pair with two operations that left every other pair
/// untouched back into the loop invariant's pair reading.
proof fn lemma_pairs_compose(
    pre: Store,
    head: Store,
    mid: Store,
    cur: Store,
    src: int,
    tgt: int,
    p0: int,
    l0: League,
)
    requires
        forall|p: int, l: League|
            #[trigger] merge_pair_done(pre, head, src, tgt, p, l) || merge_pair_pending(
                pre,
                head,
                src,
                tgt,
                p,
                l,
            ),
        forall|p: int, l: League|
            !(p == p0 && l == l0) ==> #[trigger] pair_untouched(head, mid, src, tgt, p, l),
        forall|p: int, l: League|
            !(p == p0 && l == l0) ==> #[trigger] pair_untouched(mid, cur, src, tgt, p, l),
        merge_pair_done(pre, cur, src, tgt, p0, l0),
    ensures
        forall|p: int, l: League|
            #[trigger] merge_pair_done(pre, cur, src, tgt, p, l) || merge_pair_pending(
                pre,
                cur,
                src,
                tgt,
                p,
                l,
            ),
{
    assert forall|p: int, l: League|
        #[trigger] merge_pair_done(pre, cur, src, tgt, p, l) || merge_pair_pending(
            pre,
            cur,
            src,
            tgt,
            p,
            l,
        ) by {
        if !(p == p0 && l == l0) {
            assert(pair_untouched(head, mid, src, tgt, p, l));
            assert(pair_untouched(mid, cur, src, tgt, p, l));
            assert(merge_pair_done(pre, head, src, tgt, p, l) || merge_pair_pending(
                pre,
                head,
                src,
                tgt,
                p,
                l,
            ));
            lemma_pair_state_via_untouched(pre, head, mid, src, tgt, p, l);
            lemma_pair_state_via_untouched(pre, mid, cur, src, tgt, p, l);
        }
    }
}

/// One fold step where the pair holds no target row: the source row moves
/// over unchanged.
#[verifier::rlimit(100)]
#[verifier::spinoff_prover]
fn merge_step_move(store: &mut Store, i: usize, source_id: i32, target_id: i32, Ghost(pre): Ghost<
    Store,
>)
    requires
        merge_loop_inv(pre, *old(store), source_id as int, target_id as int),
        i < old(store).scores@.len(),
        old(store).scores@[i as int].song_id == source_id,
        !old(store).has_pb(
            old(store).scores@[i as int].player_id as int,
            target_id as int,
            old(store).scores@[i as int].league,
        ),
    ensures
        merge_loop_inv(pre, *final(store), source_id as int, target_id as int),
        song_score_count(final(store).scores@, source_id as int) < song_score_count(
            old(store).scores@,
            source_id as int,
        ),
{
        let ghost head = *store;
        proof {
            lemma_count_nonneg(head.scores@, source_id as int);
            head.lemma_pb_index_at(i as int);
        }
        let p0 = store.scores[i].player_id;
        let l0 = store.scores[i].league;
        let s_id = store.scores[i].id;
        let s_pc = store.scores[i].play_count;
        let s_score = store.scores[i].score;
        proof {
            reveal(merge_pair_done);
            reveal(merge_pair_pending);
            assert(head.has_pb(p0 as int, source_id as int, l0));
            assert(merge_pair_done(pre, head, source_id as int, target_id as int, p0 as int, l0)
                || merge_pair_pending(
                pre,
                head,
                source_id as int,
                target_id as int,
                p0 as int,
                l0,
            ));
            assert(merge_pair_pending(
                pre,
                head,
                source_id as int,
                target_id as int,
                p0 as int,
                l0,
            ));
            assert(head.pb_index(p0 as int, source_id as int, l0) == i as int);
            assert(head.scores@[i as int] == pre.scores@[pre.pb_index(
                p0 as int,
                source_id as int,
                l0,
            )]);
        }
                // no target row: the source row simply moves over
                let row = Score {
                    id: s_id,
                    song_id: target_id,
                    player_id: p0,
                    league: l0,
                    submitted_at: store.scores[i].submitted_at,
                    play_count: s_pc,
                    score: s_score,
                    track_shape: copy_i32s(&store.scores[i].track_shape),
                    xstats: copy_i32s(&store.scores[i].xstats),
                    density: store.scores[i].density,
                    vehicle: store.scores[i].vehicle,
                    feats: clone_strings(&store.scores[i].feats),
                    song_length: store.scores[i].song_length,
                    gold_threshold: store.scores[i].gold_threshold,
                    iss: store.scores[i].iss,
                    isj: store.scores[i].isj,
                };
                store.scores[i] = row;
                proof {
                    assert(store.scores@ =~= head.scores@.update(
                        i as int,
                        store.scores@[i as int],
                    ));
                    merge_move_wf(head, *store, i as int, target_id as int);
                    lemma_count_update(
                        head.scores@,
                        i as int,
                        store.scores@[i as int],
                        source_id as int,
                    );
                    lemma_others_update(
                        head.scores@,
                        i as int,
                        store.scores@[i as int],
                        source_id as int,
                        target_id as int,
                    );
                    lemma_pairs_other_update(
                        head,
                        *store,
                        i as int,
                        p0 as int,
                        l0,
                        source_id as int,
                        target_id as int,
                    );
                    store.lemma_pb_index_at(i as int);
                    assert(!store.has_pb(p0 as int, source_id as int, l0)) by {
                        if store.has_pb(p0 as int, source_id as int, l0) {
                            let w = choose|w: int|
                                0 <= w < store.scores@.len() && (
                                #[trigger] store.scores@[w]).player_id == p0
                                    && store.scores@[w].song_id == source_id
                                    && store.scores@[w].league == l0;
                            assert(w != i);
                            assert(head.scores@[w] == store.scores@[w]);
                            assert(!(head.scores@[w].player_id == head.scores@[i as int].player_id
                                && head.scores@[w].song_id == head.scores@[i as int].song_id
                                && head.scores@[w].league == head.scores@[i as int].league));
                        }
                    }
                    assert(merge_pair_done(
                        pre,
                        *store,
                        source_id as int,
                        target_id as int,
                        p0 as int,
                        l0,
                    )) by {
                        reveal(merge_pair_done);
                    }
                    assert forall|p2: int, l2: League|
                        #[trigger] merge_pair_done(
                            pre,
                            *store,
                            source_id as int,
                            target_id as int,
                            p2,
                            l2,
                        ) || merge_pair_pending(
                            pre,
                            *store,
                            source_id as int,
                            target_id as int,
                            p2,
                            l2,
                        ) by {
                        if !(p2 == p0 as int && l2 == l0) {
                            assert(pair_untouched(
                                head,
                                *store,
                                source_id as int,
                                target_id as int,
                                p2,
                                l2,
                            ));
                            lemma_pair_state_via_untouched(
                                pre,
                                head,
                                *store,
                                source_id as int,
                                target_id as int,
                                p2,
                                l2,
                            );
                        } else {
                            reveal(merge_pair_done);
                        }
                    }
                }
}

/// The half-processed state of one winning-source fold: the losing target
/// row is gone and paid back, the source row still stands untouched, every
/// other pair reads as before.
pub open spec fn merge_replace_mid(pre: Store, cur: Store, src: int, tgt: int, p0: int, l0: League) -> bool {
    &&& cur.wf()
    &&& pre.wf()
    &&& pre.scores@.len() <= 0x4000_0000
    &&& cur.scores@.len() <= pre.scores@.len()
    &&& (forall|k: int|
        0 <= k < pre.scores@.len() ==> 0 <= (#[trigger] pre.scores@[k]).play_count
            <= 0x3FFF_FFFF)
    &&& src != tgt
    &&& pre.has_song_id(tgt)
    &&& cur.players@ == pre.players@
    &&& cur.songs@ == pre.songs@
    &&& cur.extra_infos@ == pre.extra_infos@
    &&& cur.shouts@ == pre.shouts@
    &&& cur.rivalries@ == pre.rivalries@
    &&& cur.next_extra_id == pre.next_extra_id
    &&& (forall|p: int, l: League|
        !(p == p0 && l == l0) ==> (#[trigger] merge_pair_done(pre, cur, src, tgt, p, l)
            || merge_pair_pending(pre, cur, src, tgt, p, l)))
    &&& pre.has_pb(p0, src, l0)
    &&& pre.has_pb(p0, tgt, l0)
    &&& pre.scores@[pre.pb_index(p0, tgt, l0)].score < pre.scores@[pre.pb_index(
        p0,
        src,
        l0,
    )].score
    &&& cur.has_pb(p0, src, l0)
    &&& cur.scores@[cur.pb_index(p0, src, l0)] == pre.scores@[pre.pb_index(p0, src, l0)]
    &&& !cur.has_pb(p0, tgt, l0)
    &&& scores_of_others(cur.scores@, src, tgt) == scores_of_others(pre.scores@, src, tgt)
}

/// First half of a winning-source fold: deletes the losing target row —
/// paying its points back — and relocates the untouched source row.
#[verifier::rlimit(100)]
#[verifier::spinoff_prover]
fn merge_step_replace_drop(
    store: &mut Store,
    i: usize,
    j: usize,
    source_id: i32,
    target_id: i32,
    Ghost(pre): Ghost<Store>,
) -> (r: (usize, i32))
    requires
        merge_loop_inv(pre, *old(store), source_id as int, target_id as int),
        i < old(store).scores@.len(),
        j < old(store).scores@.len(),
        old(store).scores@[i as int].song_id == source_id,
        old(store).scores@[j as int].player_id == old(store).scores@[i as int].player_id,
        old(store).scores@[j as int].song_id == target_id,
        old(store).scores@[j as int].league == old(store).scores@[i as int].league,
        old(store).scores@[j as int].score < old(store).scores@[i as int].score,
    ensures
        merge_replace_mid(
            pre,
            *final(store),
            source_id as int,
            target_id as int,
            old(store).scores@[i as int].player_id as int,
            old(store).scores@[i as int].league,
        ),
        song_score_count(final(store).scores@, source_id as int) == song_score_count(
            old(store).scores@,
            source_id as int,
        ),
        r.0 < final(store).scores@.len(),
        final(store).scores@[r.0 as int] == old(store).scores@[i as int],
        r.1 as int == pre.scores@[pre.pb_index(
            old(store).scores@[i as int].player_id as int,
            target_id as int,
            old(store).scores@[i as int].league,
        )].play_count,
{
    let ghost head = *store;
    proof {
        head.lemma_pb_index_at(i as int);
    }
    let p0 = store.scores[i].player_id;
    let l0 = store.scores[i].league;
    let s_id = store.scores[i].id;
    proof {
        reveal(merge_pair_done);
        reveal(merge_pair_pending);
        assert(head.has_pb(p0 as int, source_id as int, l0));
        assert(merge_pair_done(pre, head, source_id as int, target_id as int, p0 as int, l0)
            || merge_pair_pending(pre, head, source_id as int, target_id as int, p0 as int, l0));
        assert(merge_pair_pending(pre, head, source_id as int, target_id as int, p0 as int, l0));
        assert(head.pb_index(p0 as int, source_id as int, l0) == i as int);
        assert(head.scores@[i as int] == pre.scores@[pre.pb_index(
            p0 as int,
            source_id as int,
            l0,
        )]);
    }
    let t_id = store.scores[j].id;
    let t_pc = store.scores[j].play_count;
    proof {
        store.lemma_pb_index_at(j as int);
        assert(head.scores@[j as int] == pre.scores@[pre.pb_index(
            p0 as int,
            target_id as int,
            l0,
        )]);
        assert(j != i);
        assert(head.scores@[i as int].id != head.scores@[j as int].id);
        let owner = p0 as int;
        assert(head.has_player_id(owner));
        let w = choose|w: int|
            0 <= w < head.players@.len() && (#[trigger] head.players@[w]).id == p0;
        assert(head.leaderboard.contains_player(head.players@[w].id as int));
        let pe = head.leaderboard.spec_index_of(owner);
        assert(head.leaderboard.entries@[pe].player_id == p0);
        head.leaderboard.lemma_index_at(pe);
        crate::admin::lemma_sum_sp_bounded(head.scores@, owner);
        assert((head.scores@.len() as int) * 0x8000_0000 <= 0x4000_0000 * 0x8000_0000)
            by (nonlinear_arith)
            requires
                head.scores@.len() <= 0x4000_0000,
        ;
        head.lemma_score_index_at(j as int);
    }
    delete_score(store, t_id);
    let ghost mid = *store;
    proof {
        lemma_count_remove(head.scores@, j as int, source_id as int);
        lemma_others_remove(head.scores@, j as int, source_id as int, target_id as int);
        lemma_pairs_other_remove(
            head,
            mid,
            j as int,
            p0 as int,
            l0,
            source_id as int,
            target_id as int,
        );
        let ghost srci = if (i as int) < j as int {
            i as int
        } else {
            i as int - 1
        };
        assert(mid.scores@[srci] == head.scores@[i as int]);
        assert(mid.has_score_id(s_id as int));
    }
    let i2 = match store.find_score(s_id) {
        Some(x) => x,
        None => {
            proof {
                assert(false);
            }
            0
        },
    };
    proof {
        let srci = if (i as int) < j as int {
            i as int
        } else {
            i as int - 1
        };
        mid.lemma_score_index_at(i2 as int);
        mid.lemma_score_index_at(srci);
        assert(i2 as int == srci);
        assert(mid.scores@[i2 as int] == head.scores@[i as int]);
        mid.lemma_pb_index_at(i2 as int);
        assert(!mid.has_pb(p0 as int, target_id as int, l0)) by {
            if mid.has_pb(p0 as int, target_id as int, l0) {
                let w = choose|w: int|
                    0 <= w < mid.scores@.len() && (#[trigger] mid.scores@[w]).player_id == p0
                        && mid.scores@[w].song_id == target_id && mid.scores@[w].league == l0;
                let sw = if w < j as int {
                    w
                } else {
                    w + 1
                };
                assert(head.scores@[sw] == mid.scores@[w]);
                assert(sw != j as int);
                assert(!(head.scores@[sw].player_id == head.scores@[j as int].player_id
                    && head.scores@[sw].song_id == head.scores@[j as int].song_id
                    && head.scores@[sw].league == head.scores@[j as int].league));
            }
        }
        assert forall|p2: int, l2: League|
            !(p2 == p0 as int && l2 == l0) implies (#[trigger] merge_pair_done(
                pre,
                mid,
                source_id as int,
                target_id as int,
                p2,
                l2,
            ) || merge_pair_pending(pre, mid, source_id as int, target_id as int, p2, l2)) by {
            assert(pair_untouched(head, mid, source_id as int, target_id as int, p2, l2));
            lemma_pair_state_via_untouched(
                pre,
                head,
                mid,
                source_id as int,
                target_id as int,
                p2,
                l2,
            );
        }
    }
    (i2, t_pc)
}

/// Second half of a winning-source fold: the relocated source row moves
/// over to the target, carrying both play counts.
#[verifier::rlimit(100)]
#[verifier::spinoff_prover]
fn merge_step_replace_finish(
    store: &mut Store,
    i2: usize,
    t_pc: i32,
    source_id: i32,
    target_id: i32,
    Ghost(pre): Ghost<Store>,
)
    requires
        i2 < old(store).scores@.len(),
        old(store).scores@[i2 as int].song_id == source_id,
        merge_replace_mid(
            pre,
            *old(store),
            source_id as int,
            target_id as int,
            old(store).scores@[i2 as int].player_id as int,
            old(store).scores@[i2 as int].league,
        ),
        t_pc as int == pre.scores@[pre.pb_index(
            old(store).scores@[i2 as int].player_id as int,
            target_id as int,
            old(store).scores@[i2 as int].league,
        )].play_count,
    ensures
        merge_loop_inv(pre, *final(store), source_id as int, target_id as int),
        song_score_count(final(store).scores@, source_id as int) == song_score_count(
            old(store).scores@,
            source_id as int,
        ) - 1,
{
    let ghost mid = *store;
    proof {
        mid.lemma_pb_index_at(i2 as int);
        assert(mid.scores@[i2 as int] == pre.scores@[pre.pb_index(
            mid.scores@[i2 as int].player_id as int,
            source_id as int,
            mid.scores@[i2 as int].league,
        )]);
    }
    let p0 = store.scores[i2].player_id;
    let l0 = store.scores[i2].league;
    let s_id = store.scores[i2].id;
    let s_pc = store.scores[i2].play_count;
    let s_score = store.scores[i2].score;
    let row = Score {
        id: s_id,
        song_id: target_id,
        player_id: p0,
        league: l0,
        submitted_at: store.scores[i2].submitted_at,
        play_count: s_pc + t_pc,
        score: s_score,
        track_shape: copy_i32s(&store.scores[i2].track_shape),
        xstats: copy_i32s(&store.scores[i2].xstats),
        density: store.scores[i2].density,
        vehicle: store.scores[i2].vehicle,
        feats: clone_strings(&store.scores[i2].feats),
        song_length: store.scores[i2].song_length,
        gold_threshold: store.scores[i2].gold_threshold,
        iss: store.scores[i2].iss,
        isj: store.scores[i2].isj,
    };
    store.scores[i2] = row;
    proof {
        assert(store.scores@ =~= mid.scores@.update(i2 as int, store.scores@[i2 as int]));
        merge_move_wf(mid, *store, i2 as int, target_id as int);
        lemma_count_update(mid.scores@, i2 as int, store.scores@[i2 as int], source_id as int);
        lemma_others_update(
            mid.scores@,
            i2 as int,
            store.scores@[i2 as int],
            source_id as int,
            target_id as int,
        );
        lemma_pairs_other_update(
            mid,
            *store,
            i2 as int,
            p0 as int,
            l0,
            source_id as int,
            target_id as int,
        );
        store.lemma_pb_index_at(i2 as int);
        assert(!store.has_pb(p0 as int, source_id as int, l0)) by {
            if store.has_pb(p0 as int, source_id as int, l0) {
                let w = choose|w: int|
                    0 <= w < store.scores@.len() && (#[trigger] store.scores@[w]).player_id == p0
                        && store.scores@[w].song_id == source_id && store.scores@[w].league == l0;
                assert(w != i2);
                assert(mid.scores@[w] == store.scores@[w]);
                assert(mid.has_pb(p0 as int, source_id as int, l0));
                mid.lemma_pb_index_at(w);
                assert(mid.pb_index(p0 as int, source_id as int, l0) == w);
                assert(mid.pb_index(p0 as int, source_id as int, l0) == i2 as int);
            }
        }
        assert(merge_pair_done(
            pre,
            *store,
            source_id as int,
            target_id as int,
            p0 as int,
            l0,
        )) by {
            reveal(merge_pair_done);
        }
        assert forall|p2: int, l2: League|
            #[trigger] merge_pair_done(pre, *store, source_id as int, target_id as int, p2, l2)
                || merge_pair_pending(
                pre,
                *store,
                source_id as int,
                target_id as int,
                p2,
                l2,
            ) by {
            if !(p2 == p0 as int && l2 == l0) {
                assert(pair_untouched(mid, *store, source_id as int, target_id as int, p2, l2));
                assert(merge_pair_done(pre, mid, source_id as int, target_id as int, p2, l2)
                    || merge_pair_pending(pre, mid, source_id as int, target_id as int, p2, l2));
                lemma_pair_state_via_untouched(
                    pre,
                    mid,
                    *store,
                    source_id as int,
                    target_id as int,
                    p2,
                    l2,
                );
            }
        }
    }
}

/// One fold step where the source ride wins: the target row goes — its
/// points paid back — and the source row moves over carrying both play
/// counts.
#[verifier::spinoff_prover]
fn merge_step_replace(
    store: &mut Store,
    i: usize,
    j: usize,
    source_id: i32,
    target_id: i32,
    Ghost(pre): Ghost<Store>,
)
    requires
        merge_loop_inv(pre, *old(store), source_id as int, target_id as int),
        i < old(store).scores@.len(),
        j < old(store).scores@.len(),
        old(store).scores@[i as int].song_id == source_id,
        old(store).scores@[j as int].player_id == old(store).scores@[i as int].player_id,
        old(store).scores@[j as int].song_id == target_id,
        old(store).scores@[j as int].league == old(store).scores@[i as int].league,
        old(store).scores@[j as int].score < old(store).scores@[i as int].score,
    ensures
        merge_loop_inv(pre, *final(store), source_id as int, target_id as int),
        song_score_count(final(store).scores@, source_id as int) < song_score_count(
            old(store).scores@,
            source_id as int,
        ),
{
    let (i2, t_pc) = merge_step_replace_drop(store, i, j, source_id, target_id, Ghost(pre));
    merge_step_replace_finish(store, i2, t_pc, source_id, target_id, Ghost(pre));
}

/// One fold step where the target row stands: it absorbs the source's
/// plays and the source row goes, its points paid back.
#[verifier::rlimit(100)]
#[verifier::spinoff_prover]
fn merge_step_fold(
    store: &mut Store,
    i: usize,
    j: usize,
    source_id: i32,
    target_id: i32,
    Ghost(pre): Ghost<Store>,
)
    requires
        merge_loop_inv(pre, *old(store), source_id as int, target_id as int),
        i < old(store).scores@.len(),
        j < old(store).scores@.len(),
        old(store).scores@[i as int].song_id == source_id,
        old(store).scores@[j as int].player_id == old(store).scores@[i as int].player_id,
        old(store).scores@[j as int].song_id == target_id,
        old(store).scores@[j as int].league == old(store).scores@[i as int].league,
        !(old(store).scores@[j as int].score < old(store).scores@[i as int].score),
    ensures
        merge_loop_inv(pre, *final(store), source_id as int, target_id as int),
        song_score_count(final(store).scores@, source_id as int) < song_score_count(
            old(store).scores@,
            source_id as int,
        ),
{
        let ghost head = *store;
        proof {
            lemma_count_nonneg(head.scores@, source_id as int);
            head.lemma_pb_index_at(i as int);
        }
        let p0 = store.scores[i].player_id;
        let l0 = store.scores[i].league;
        let s_id = store.scores[i].id;
        let s_pc = store.scores[i].play_count;
        let s_score = store.scores[i].score;
        proof {
            reveal(merge_pair_done);
            reveal(merge_pair_pending);
            assert(head.has_pb(p0 as int, source_id as int, l0));
            assert(merge_pair_done(pre, head, source_id as int, target_id as int, p0 as int, l0)
                || merge_pair_pending(
                pre,
                head,
                source_id as int,
                target_id as int,
                p0 as int,
                l0,
            ));
            assert(merge_pair_pending(
                pre,
                head,
                source_id as int,
                target_id as int,
                p0 as int,
                l0,
            ));
            assert(head.pb_index(p0 as int, source_id as int, l0) == i as int);
            assert(head.scores@[i as int] == pre.scores@[pre.pb_index(
                p0 as int,
                source_id as int,
                l0,
            )]);
        }
                let t_id = store.scores[j].id;
                let t_pc = store.scores[j].play_count;
                let t_score = store.scores[j].score;
                proof {
                    store.lemma_pb_index_at(j as int);
                    assert(head.scores@[j as int] == pre.scores@[pre.pb_index(
                        p0 as int,
                        target_id as int,
                        l0,
                    )]);
                    assert(j != i);
                    assert(head.scores@[i as int].id != head.scores@[j as int].id);
                }
        {
                    // the target row stands: it absorbs the plays, the
                    // source row goes
                    let row = Score {
                        id: t_id,
                        song_id: target_id,
                        player_id: p0,
                        league: l0,
                        submitted_at: store.scores[j].submitted_at,
                        play_count: t_pc + s_pc,
                        score: t_score,
                        track_shape: copy_i32s(&store.scores[j].track_shape),
                        xstats: copy_i32s(&store.scores[j].xstats),
                        density: store.scores[j].density,
                        vehicle: store.scores[j].vehicle,
                        feats: clone_strings(&store.scores[j].feats),
                        song_length: store.scores[j].song_length,
                        gold_threshold: store.scores[j].gold_threshold,
                        iss: store.scores[j].iss,
                        isj: store.scores[j].isj,
                    };
                    store.scores[j] = row;
                    let ghost mid = *store;
                    proof {
                        assert(mid.scores@ =~= head.scores@.update(
                            j as int,
                            mid.scores@[j as int],
                        ));
                        crate::engine::engine_update_wf(head, mid, j as int, p0 as int);
                        lemma_count_update(
                            head.scores@,
                            j as int,
                            mid.scores@[j as int],
                            source_id as int,
                        );
                        lemma_others_update(
                            head.scores@,
                            j as int,
                            mid.scores@[j as int],
                            source_id as int,
                            target_id as int,
                        );
                        lemma_pairs_other_update(
                            head,
                            mid,
                            j as int,
                            p0 as int,
                            l0,
                            source_id as int,
                            target_id as int,
                        );
                        // the source row is untouched by the rewrite at j
                        assert(mid.scores@[i as int] == head.scores@[i as int]);
                        mid.lemma_score_index_at(i as int);
                        let owner = p0 as int;
                        assert(mid.has_player_id(owner)) by {
                            assert(head.has_player_id(owner));
                            let w = choose|w: int|
                                0 <= w < head.players@.len() && (#[trigger] head.players@[w]).id
                                    == p0;
                            assert(mid.players@[w].id == p0);
                        }
                        let w2 = choose|w2: int|
                            0 <= w2 < mid.players@.len() && (#[trigger] mid.players@[w2]).id == p0;
                        assert(mid.leaderboard.contains_player(mid.players@[w2].id as int));
                        let pe = mid.leaderboard.spec_index_of(owner);
                        assert(mid.leaderboard.entries@[pe].player_id == p0);
                        mid.leaderboard.lemma_index_at(pe);
                        crate::admin::lemma_sum_sp_bounded(mid.scores@, owner);
                        assert((mid.scores@.len() as int) * 0x8000_0000 <= 0x4000_0000
                            * 0x8000_0000) by (nonlinear_arith)
                            requires
                                mid.scores@.len() <= 0x4000_0000,
                        ;
                    }
                    delete_score(store, s_id);
                    proof {
                        lemma_count_remove(mid.scores@, i as int, source_id as int);
                        lemma_others_remove(
                            mid.scores@,
                            i as int,
                            source_id as int,
                            target_id as int,
                        );
                        lemma_pairs_other_remove(
                            mid,
                            *store,
                            i as int,
                            p0 as int,
                            l0,
                            source_id as int,
                            target_id as int,
                        );
                        let ghost tgtw = if (j as int) < i as int {
                            j as int
                        } else {
                            j as int - 1
                        };
                        assert(store.scores@[tgtw] == mid.scores@[j as int]);
                        store.lemma_pb_index_at(tgtw);
                        assert(!store.has_pb(p0 as int, source_id as int, l0)) by {
                            if store.has_pb(p0 as int, source_id as int, l0) {
                                let w = choose|w: int|
                                    0 <= w < store.scores@.len() && (
                                    #[trigger] store.scores@[w]).player_id == p0
                                        && store.scores@[w].song_id == source_id
                                        && store.scores@[w].league == l0;
                                let sw = if w < i as int {
                                    w
                                } else {
                                    w + 1
                                };
                                assert(mid.scores@[w] == store.scores@[w]);
                                assert(head.scores@[sw] == mid.scores@[sw] || sw == j as int);
                                assert(sw != i as int);
                                assert(mid.scores@[sw] == store.scores@[w]);
                                if sw == j as int {
                                    assert(mid.scores@[sw].song_id == target_id);
                                } else {
                                    assert(head.scores@[sw] == mid.scores@[sw]);
                                    assert(!(head.scores@[sw].player_id
                                        == head.scores@[i as int].player_id
                                        && head.scores@[sw].song_id
                                        == head.scores@[i as int].song_id
                                        && head.scores@[sw].league
                                        == head.scores@[i as int].league));
                                }
                            }
                        }
                        assert(merge_pair_done(
                            pre,
                            *store,
                            source_id as int,
                            target_id as int,
                            p0 as int,
                            l0,
                        )) by {
                            reveal(merge_pair_done);
                        }
                        lemma_pairs_compose(
                            pre,
                            head,
                            mid,
                            *store,
                            source_id as int,
                            target_id as int,
                            p0 as int,
                            l0,
                        );
                    }
                }
}

/// Merges the source song into the target: every player-league pair that
/// held a row on either song ends with exactly one row, on the target,
/// carrying the higher score and the summed play counts; losers pay their
/// skill points back. Optionally the source's title and artist join the
/// target's alias lists; the source song is deleted at the end. Returns
/// whether both songs existed and differed.
#[verifier::rlimit(100)]
#[verifier::spinoff_prover]
pub fn merge_song_into(store: &mut Store, source_id: i32, target_id: i32, should_alias: bool) -> (r:
    bool)
    requires
        old(store).wf(),
        old(store).scores@.len() <= 0x4000_0000,
        old(store).next_extra_id < i32::MAX,
        forall|k: int|
            0 <= k < old(store).scores@.len() ==> 0 <= (
            #[trigger] old(store).scores@[k]).play_count <= 0x3FFF_FFFF,
    ensures
        final(store).wf(),
        r == (old(store).has_song_id(source_id as int) && old(store).has_song_id(
            target_id as int,
        ) && source_id != target_id),
        !r ==> *final(store) == *old(store),
        final(store).players@ == old(store).players@,
        final(store).rivalries@ == old(store).rivalries@,
        r ==> !final(store).has_song_id(source_id as int),
        r ==> final(store).has_song_id(target_id as int),
        r ==> forall|p: int, l: League|
            #[trigger] merge_pair_done(
                *old(store),
                *final(store),
                source_id as int,
                target_id as int,
                p,
                l,
            ),
        r ==> scores_of_others(final(store).scores@, source_id as int, target_id as int)
            == scores_of_others(old(store).scores@, source_id as int, target_id as int),
        r && should_alias ==> final(store).has_extra_for_song(target_id as int) && ({
            let e = final(store).extra_infos@[crate::store::extra_index_of(
                final(store).extra_infos@,
                target_id as int,
            )];
            let st = old(store).songs@[crate::store::song_index_of(
                old(store).songs@,
                source_id as int,
            )];
            &&& (e.aliases_title matches Some(at) && exists|k: int|
                0 <= k < at@.len() && (#[trigger] at@[k])@ == st.title@)
            &&& (e.aliases_artist matches Some(aa) && exists|k: int|
                0 <= k < aa@.len() && (#[trigger] aa@[k])@ == st.artist@)
        }),
{
    let src_idx = match store.find_song(source_id) {
        Some(x) => x,
        None => {
            return false;
        },
    };
    if store.find_song(target_id).is_none() || source_id == target_id {
        return false;
    }
    let ghost pre = *store;
    proof {
        crate::store::lemma_song_index_of_at(pre.songs@, src_idx as int);
        assert forall|p: int, l: League|
            #[trigger] merge_pair_done(pre, *store, source_id as int, target_id as int, p, l)
                || merge_pair_pending(pre, *store, source_id as int, target_id as int, p, l) by {
            reveal(merge_pair_done);
            reveal(merge_pair_pending);
            if !pre.has_pb(p, source_id as int, l) {
                assert(merge_pair_done(pre, *store, source_id as int, target_id as int, p, l));
            }
        }
        assert(pre.has_song_id(target_id as int));
    }
    loop
        invariant_except_break
            merge_loop_inv(pre, *store, source_id as int, target_id as int),
        ensures
            merge_loop_inv(pre, *store, source_id as int, target_id as int),
            forall|k: int|
                0 <= k < store.scores@.len() ==> (#[trigger] store.scores@[k]).song_id
                    != source_id,
            forall|p: int, l: League|
                #[trigger] merge_pair_done(
                    pre,
                    *store,
                    source_id as int,
                    target_id as int,
                    p,
                    l,
                ),
        decreases song_score_count(store.scores@, source_id as int),
    {
        let i = match store.find_score_for_song(source_id) {
            Some(i) => i,
            None => {
                proof {
                    assert forall|p: int, l: League|
                        #[trigger] merge_pair_done(
                            pre,
                            *store,
                            source_id as int,
                            target_id as int,
                            p,
                            l,
                        ) by {
                        reveal(merge_pair_pending);
                        if merge_pair_pending(
                            pre,
                            *store,
                            source_id as int,
                            target_id as int,
                            p,
                            l,
                        ) {
                            let w = choose|w: int|
                                0 <= w < store.scores@.len() && (
                                #[trigger] store.scores@[w]).player_id == p
                                    && store.scores@[w].song_id == source_id
                                    && store.scores@[w].league == l;
                            assert(store.scores@[w].song_id != source_id);
                        }
                    }
                }
                break ;
            },
        };
        proof {
            lemma_count_nonneg(store.scores@, source_id as int);
        }
        match store.find_score_by_triple(store.scores[i].player_id, target_id, store.scores[i].league) {
            None => {
                merge_step_move(store, i, source_id, target_id, Ghost(pre));
            },
            Some(j) => {
                if store.scores[j].score < store.scores[i].score {
                    merge_step_replace(store, i, j, source_id, target_id, Ghost(pre));
                } else {
                    merge_step_fold(store, i, j, source_id, target_id, Ghost(pre));
                }
            },
        }
        proof {
            lemma_count_nonneg(store.scores@, source_id as int);
        }
    }
    if should_alias {
        // the source's naming joins the target's alias lists
        let sidx2 = match store.find_song(source_id) {
            Some(x) => x,
            None => {
                proof {
                    let w = crate::store::song_index_of(pre.songs@, source_id as int);
                    assert(pre.songs@[w].id == source_id);
                    assert(store.songs@[w].id == source_id);
                    assert(false);
                }
                0
            },
        };
        proof {
            crate::store::lemma_song_index_of_at(store.songs@, sidx2 as int);
            assert(store.songs@ == pre.songs@);
            assert(sidx2 as int == crate::store::song_index_of(pre.songs@, source_id as int))
                by {
                crate::store::lemma_song_index_of_at(pre.songs@, sidx2 as int);
            }
        }
        let src_title = store.songs[sidx2].title.clone();
        let src_artist = store.songs[sidx2].artist.clone();
        let mut at: Vec<String>;
        let mut aa: Vec<String>;
        match store.find_extra_for_song(target_id) {
            Some(e) => {
                at = match &store.extra_infos[e].aliases_title {
                    Some(v) => clone_strings(v),
                    None => Vec::new(),
                };
                aa = match &store.extra_infos[e].aliases_artist {
                    Some(v) => clone_strings(v),
                    None => Vec::new(),
                };
            },
            None => {
                at = Vec::new();
                aa = Vec::new();
            },
        }
        at.push(src_title);
        aa.push(src_artist);
        let ghost at_view = at.deep_view();
        let ghost aa_view = aa.deep_view();
        proof {
            assert(at_view[at_view.len() - 1]
                == pre.songs@[crate::store::song_index_of(pre.songs@, source_id as int)].title@);
            assert(aa_view[aa_view.len() - 1]
                == pre.songs@[crate::store::song_index_of(pre.songs@, source_id as int)].artist@);
            assert(pre.has_song_id(target_id as int));
            let w = choose|w: int|
                0 <= w < pre.songs@.len() && (#[trigger] pre.songs@[w]).id == target_id;
            assert(store.songs@[w].id == target_id);
        }
        let info = NewExtraSongInfo {
            song_id: target_id,
            cover_url: None,
            cover_url_small: None,
            mbid: None,
            musicbrainz_title: None,
            musicbrainz_artist: None,
            musicbrainz_length: None,
            aliases_title: Some(at),
            aliases_artist: Some(aa),
        };
        let ghost before_upsert = *store;
        info.upsert(store);
        proof {
            lemma_pairs_done_transfer(
                pre,
                before_upsert,
                *store,
                source_id as int,
                target_id as int,
            );
        }
    }
    // the source song itself goes: no score rows are left on it, so only
    // its metadata, shouts and row disappear
    let ghost before_delete = *store;
    proof {
        assert(before_delete.has_song_id(source_id as int)) by {
            let w = crate::store::song_index_of(pre.songs@, source_id as int);
            assert(pre.songs@[w].id == source_id);
            assert(before_delete.songs@[w].id == source_id);
        }
        assert(forall|k: int|
            0 <= k < before_delete.scores@.len() ==> (
            #[trigger] before_delete.scores@[k]).song_id != source_id);
    }
    crate::admin::delete_song(store, source_id);
    proof {
        crate::admin::lemma_without_song_identity(before_delete.scores@, source_id as int);
        assert(store.scores@ == before_delete.scores@);
        lemma_pairs_done_transfer(pre, before_delete, *store, source_id as int, target_id as int);
        // the target song survives the removal of the source row
        let si = crate::store::song_index_of(before_delete.songs@, source_id as int);
        assert(store.songs@ == before_delete.songs@.remove(si));
        assert(store.has_song_id(target_id as int)) by {
            assert(before_delete.has_song_id(target_id as int)) by {
                let w = choose|w: int|
                    0 <= w < pre.songs@.len() && (#[trigger] pre.songs@[w]).id == target_id;
                assert(before_delete.songs@[w].id == target_id);
            }
            let w = choose|w: int|
                0 <= w < before_delete.songs@.len() && (#[trigger] before_delete.songs@[w]).id
                    == target_id;
            assert(before_delete.songs@[si].id == source_id);
            assert(w != si);
            let dst = if w < si {
                w
            } else {
                w - 1
            };
            assert(store.songs@[dst] == before_delete.songs@[w]);
        }
        if should_alias {
            // the target's metadata row, with its fresh aliases, survives
            lemma_target_extra_survives(
                before_delete,
                *store,
                source_id as int,
                target_id as int,
            );
        }
    }
    true
}

/// Every pair's folded reading carries over between stores with the same
/// score table.
proof fn lemma_pairs_done_transfer(pre: Store, a: Store, b: Store, src: int, tgt: int)
    requires
        a.scores_wf(),
        b.scores_wf(),
        b.scores@ == a.scores@,
        forall|p: int, l: League| #[trigger] merge_pair_done(pre, a, src, tgt, p, l),
    ensures
        forall|p: int, l: League| #[trigger] merge_pair_done(pre, b, src, tgt, p, l),
{
    assert forall|p: int, l: League| #[trigger] merge_pair_done(pre, b, src, tgt, p, l) by {
        reveal(merge_pair_done);
        assert(merge_pair_done(pre, a, src, tgt, p, l));
        lemma_song_pb_transfer(a, b, src, p, l);
        lemma_song_pb_transfer(a, b, tgt, p, l);
    }
}

/// Removing the source song's row leaves the target's metadata row, and
/// with it the absorbed aliases, in place.
proof fn lemma_target_extra_survives(bd: Store, fin: Store, src: int, tgt: int)
    requires
        bd.wf(),
        fin.extras_wf(),
        src != tgt,
        bd.has_extra_for_song(tgt),
        fin.extra_infos@ == (if bd.has_extra_for_song(src) {
            bd.extra_infos@.remove(crate::store::extra_index_of(bd.extra_infos@, src))
        } else {
            bd.extra_infos@
        }),
    ensures
        fin.has_extra_for_song(tgt),
        fin.extra_infos@[crate::store::extra_index_of(fin.extra_infos@, tgt)]
            == bd.extra_infos@[crate::store::extra_index_of(bd.extra_infos@, tgt)],
{
    let w = choose|w: int|
        0 <= w < bd.extra_infos@.len() && (#[trigger] bd.extra_infos@[w]).song_id == tgt;
    crate::store::lemma_extra_index_of_at(bd.extra_infos@, w);
    if bd.has_extra_for_song(src) {
        let si = crate::store::extra_index_of(bd.extra_infos@, src);
        assert(0 <= si < bd.extra_infos@.len() && bd.extra_infos@[si].song_id == src) by {
            let v = choose|v: int|
                0 <= v < bd.extra_infos@.len() && (#[trigger] bd.extra_infos@[v]).song_id == src;
        }
        assert(w != si);
        let dst = if w < si {
            w
        } else {
            w - 1
        };
        assert(fin.extra_infos@[dst] == bd.extra_infos@[w]);
        assert(fin.has_extra_for_song(tgt));
        crate::store::lemma_extra_index_of_at(fin.extra_infos@, dst);
    } else {
        assert(fin.extra_infos@[w].song_id == tgt);
        assert(fin.has_extra_for_song(tgt));
        crate::store::lemma_extra_index_of_at(fin.extra_infos@, w);
    }
}

} // verus!
