//! The ride submission endpoint's decisions: who held the song's top score,
//! whether the submitter dethroned them, and the reconciliation of the
//! submitted ride with the stored personal best.

use vstd::prelude::*;
use crate::game_types::{Character, League};
use crate::models::NewScore;
use crate::numbers::{comma_list_ok, split_comma_separated, split_x_separated, x_list_ok, x_list_vals, comma_list_vals, joined_x, seq_i32_int};
use crate::engine::submit_effect;
use crate::store::Store;

verus! {

/// The dethrone section of a ride response. Without a previous leader it
/// holds the protocol's sentinel: `"No one"` with rival score 143.
#[derive(Clone, Debug)]
pub struct BeatScore {
    pub dethroned: bool,
    pub friend: bool,
    pub rival_name: String,
    pub rival_score: i32,
    pub my_score: i32,
    pub reign_seconds: i64,
}

/// Why a ride submission was refused.
#[derive(Clone, Copy, Debug, PartialEq, Eq, Structural)]
pub enum SendRideError {
    PlayerNotFound,
    SongNotFound,
    BadTrackShape,
    BadXstats,
}

/// What a successful submission hands back: the dethrone section, the index
/// of the written score row, and the duration hint (in milliseconds) for the
/// detached metadata lookup.
#[derive(Debug)]
pub struct SendRideOutcome {
    pub beat_score: BeatScore,
    pub score_index: usize,
    pub enrich_duration_ms: i64,
}

impl Store {
    /// Is row `i` in the running for the song's top score: same song and
    /// league, another player?
    pub open spec fn is_top_candidate(self, i: int, sid: int, league: League, excl: int) -> bool {
        &&& 0 <= i < self.scores@.len()
        &&& self.scores@[i].song_id == sid
        &&& self.scores@[i].league == league
        &&& self.scores@[i].player_id != excl
    }

    /// The index of the current leader among the first `n` rows: the
    /// highest-scoring candidate, the earliest row on a tie.
    pub open spec fn top_of_prefix(self, n: int, sid: int, league: League, excl: int) -> Option<
        int,
    >
        decreases n,
    {
        if n <= 0 {
            None
        } else {
            let prev = self.top_of_prefix(n - 1, sid, league, excl);
            if self.is_top_candidate(n - 1, sid, league, excl) {
                match prev {
                    None => Some(n - 1),
                    Some(i) => if self.scores@[i].score < self.scores@[n - 1].score {
                        Some(n - 1)
                    } else {
                        Some(i)
                    },
                }
            } else {
                prev
            }
        }
    }

    /// The index of the current leader of a song and league, excluding one
    /// player, or `None` when nobody else has a score there.
    pub open spec fn top_of(self, sid: int, league: League, excl: int) -> Option<int> {
        self.top_of_prefix(self.scores@.len() as int, sid, league, excl)
    }

    pub open spec fn has_top(self, sid: int, league: League, excl: int) -> bool {
        self.top_of(sid, league, excl) is Some
    }

    /// The leader's row index. Meaningful only where `has_top` holds.
    pub open spec fn top_index(self, sid: int, league: League, excl: int) -> int {
        self.top_of(sid, league, excl)->0
    }

    /// The leader, where there is one, is a candidate row.
    pub proof fn lemma_top_prefix_candidate(self, n: int, sid: int, league: League, excl: int)
        requires
            0 <= n <= self.scores@.len(),
        ensures
            self.top_of_prefix(n, sid, league, excl) matches Some(i) ==> self.is_top_candidate(
                i,
                sid,
                league,
                excl,
            ),
        decreases n,
    {
        if n > 0 {
            self.lemma_top_prefix_candidate(n - 1, sid, league, excl);
        }
    }

    /// Finds the current leader of a song and league, excluding one player.
    #[verifier::loop_isolation(false)]
    pub fn find_top(&self, sid: i32, league: League, excl: i32) -> (r: Option<usize>)
        ensures
            match r {
                Some(i) => self.top_of(sid as int, league, excl as int) == Some(i as int)
                    && self.is_top_candidate(i as int, sid as int, league, excl as int),
                None => self.top_of(sid as int, league, excl as int) is None,
            },
    {
        let mut best: Option<usize> = None;
        let mut i: usize = 0;
        while i < self.scores.len()
            invariant
                i <= self.scores@.len(),
                match best {
                    Some(b) => b < i && self.top_of_prefix(
                        i as int,
                        sid as int,
                        league,
                        excl as int,
                    ) == Some(b as int),
                    None => self.top_of_prefix(i as int, sid as int, league, excl as int)
                        is None,
                },
            decreases self.scores@.len() - i,
        {
            let s = &self.scores[i];
            if s.song_id == sid && s.league == league && s.player_id != excl {
                match best {
                    Some(b) => {
                        if self.scores[b].score < s.score {
                            best = Some(i);
                        }
                    },
                    None => {
                        best = Some(i);
                    },
                }
            }
            i = i + 1;
        }
        proof {
            if let Some(b) = best {
                self.lemma_top_prefix_candidate(
                    self.scores@.len() as int,
                    sid as int,
                    league,
                    excl as int,
                );
            }
        }
        best
    }
}

/// Reads who currently leads the song in this league, other than the
/// submitter, and what the submitted ride does to them: the dethrone flag,
/// the mutual-rivalry flag, the leader's name, both scores and the length
/// of the leader's reign. Without a leader it yields the protocol sentinel.
#[verifier::rlimit(100)]
#[verifier::spinoff_prover]
pub fn compute_beat_score(
    store: &Store,
    song_id: i32,
    league: League,
    player_id: i32,
    score: i32,
    now: i64,
) -> (b: BeatScore)
    requires
        store.wf(),
        store.has_top(song_id as int, league, player_id as int) ==> {
            let t = store.scores@[store.top_index(song_id as int, league, player_id as int)];
            i64::MIN <= now - t.submitted_at <= i64::MAX
        },
    ensures
        if !store.has_top(song_id as int, league, player_id as int) {
            &&& !b.dethroned
            &&& !b.friend
            &&& b.rival_name@ == "No one"@
            &&& b.rival_score == 143
            &&& b.my_score == 0
            &&& b.reign_seconds == 0
        } else {
            let t = store.scores@[store.top_index(song_id as int, league, player_id as int)];
            &&& b.dethroned == (t.score < score)
            &&& b.friend == (store.has_rivalry(player_id as int, t.player_id as int)
                && store.has_rivalry(t.player_id as int, player_id as int))
            &&& b.rival_name@ == store.players@[store.player_index(t.player_id as int)].username@
            &&& b.rival_score == t.score
            &&& b.my_score == score
            &&& b.reign_seconds == now - t.submitted_at
        },
{
    match store.find_top(song_id, league, player_id) {
        None => BeatScore {
            dethroned: false,
            friend: false,
            rival_name: <String as vstd::string::StringExecFns>::from_str("No one"),
            rival_score: 143,
            my_score: 0,
            reign_seconds: 0,
        },
        Some(ti) => {
            let top_pid = store.scores[ti].player_id;
            let tidx = match store.find_player(top_pid) {
                Some(i) => i,
                None => {
                    proof {
                        assert(store.has_player_id(store.scores@[ti as int].player_id as int));
                        assert(false);
                    }
                    0
                },
            };
            proof {
                store.lemma_player_index_at(tidx as int);
            }
            let mutual = store.rivalry_exists(player_id, top_pid) && store.rivalry_exists(
                top_pid,
                player_id,
            );
            BeatScore {
                dethroned: store.scores[ti].score < score,
                friend: mutual,
                rival_name: store.players[tidx].username.clone(),
                rival_score: store.scores[ti].score,
                my_score: score,
                reign_seconds: now - store.scores[ti].submitted_at,
            }
        },
    }
}

/// Accepts a ride: validates the player, the song and the two number lists,
/// reads who led the song before the write, reconciles the personal best
/// and the leaderboard, and reports the dethrone outcome.
///
/// A `dethroned` report is honest: it is made exactly when the previous
/// leader's row — still present, untouched — holds strictly fewer points
/// than the submitted ride.
#[verifier::rlimit(100)]
#[verifier::spinoff_prover]
pub fn send_ride(
    store: &mut Store,
    player_id: i32,
    song_id: i32,
    league: League,
    score: i32,
    vehicle: Character,
    feats: Vec<String>,
    song_length: i32,
    track_shape: &str,
    xstats: &str,
    density: i32,
    gold_threshold: i32,
    iss: i32,
    isj: i32,
    now: i64,
) -> (r: Result<SendRideOutcome, SendRideError>)
    requires
        old(store).wf(),
        old(store).next_score_id < i32::MAX,
        old(store).has_pb(player_id as int, song_id as int, league) ==> old(store).scores@[old(
            store,
        ).pb_index(player_id as int, song_id as int, league)].play_count < i32::MAX,
        old(store).has_player_id(player_id as int) ==> {
            &&& i64::MIN + 0x1_0000_0000 <= old(store).leaderboard.points_of(player_id as int)
            &&& old(store).leaderboard.points_of(player_id as int) <= i64::MAX - 0x1_0000_0000
        },
        old(store).has_top(song_id as int, league, player_id as int) ==> {
            let t = old(store).scores@[old(store).top_index(
                song_id as int,
                league,
                player_id as int,
            )];
            i64::MIN <= now - t.submitted_at <= i64::MAX
        },
    ensures
        (r matches Err(e) && e == SendRideError::PlayerNotFound) <==> !old(store).has_player_id(
            player_id as int,
        ),
        (r matches Err(e) && e == SendRideError::SongNotFound) <==> (old(store).has_player_id(
            player_id as int,
        ) && !old(store).has_song_id(song_id as int)),
        (r matches Err(e) && e == SendRideError::BadTrackShape) <==> (old(store).has_player_id(
            player_id as int,
        ) && old(store).has_song_id(song_id as int) && !x_list_ok(track_shape@)),
        (r matches Err(e) && e == SendRideError::BadXstats) <==> (old(store).has_player_id(
            player_id as int,
        ) && old(store).has_song_id(song_id as int) && x_list_ok(track_shape@) && !comma_list_ok(
            xstats@,
        )),
        r is Err ==> *final(store) == *old(store),
        r is Ok ==> final(store).wf(),
        r matches Ok(out) ==> exists|ns: NewScore|
            {
                &&& #[trigger] seq_i32_int(ns.track_shape@) == x_list_vals(track_shape@)
                &&& ns.player_id == player_id
                &&& ns.song_id == song_id
                &&& ns.league == league
                &&& ns.score == score
                &&& ns.vehicle == vehicle
                &&& ns.feats@ == feats@
                &&& ns.song_length == song_length
                &&& ns.density == density
                &&& ns.gold_threshold == gold_threshold
                &&& ns.iss == iss
                &&& ns.isj == isj
                &&& seq_i32_int(ns.xstats@) == comma_list_vals(xstats@)
                &&& submit_effect(
                    *old(store),
                    *final(store),
                    ns,
                    now as int,
                    out.score_index as int,
                )
            },
        r matches Ok(out) ==> out.enrich_duration_ms == song_length as i64 * 10,
        r matches Ok(out) ==> {
            let b = out.beat_score;
            if !old(store).has_top(song_id as int, league, player_id as int) {
                &&& !b.dethroned
                &&& !b.friend
                &&& b.rival_name@ == "No one"@
                &&& b.rival_score == 143
                &&& b.my_score == 0
                &&& b.reign_seconds == 0
            } else {
                let t = old(store).scores@[old(store).top_index(
                    song_id as int,
                    league,
                    player_id as int,
                )];
                &&& b.dethroned == (t.score < score)
                &&& b.friend == (old(store).has_rivalry(player_id as int, t.player_id as int)
                    && old(store).has_rivalry(t.player_id as int, player_id as int))
                &&& b.rival_name@ == old(store).players@[old(store).player_index(
                    t.player_id as int,
                )].username@
                &&& b.rival_score == t.score
                &&& b.my_score == score
                &&& b.reign_seconds == now - t.submitted_at
            }
        },
        // dethrone honesty: a true report means the displaced leader's row is
        // still there with strictly fewer points than the submitted ride
        r matches Ok(out) ==> (out.beat_score.dethroned ==> exists|j: int|
            {
                &&& 0 <= j < final(store).scores@.len()
                &&& (#[trigger] final(store).scores@[j]).id == old(store).scores@[old(
                    store,
                ).top_index(song_id as int, league, player_id as int)].id
                &&& final(store).scores@[j].score == old(store).scores@[old(store).top_index(
                    song_id as int,
                    league,
                    player_id as int,
                )].score
                &&& final(store).scores@[j].score < score
            }),
{
    let pid = player_id;
    if store.find_player(pid).is_none() {
        return Err(SendRideError::PlayerNotFound);
    }
    if store.find_song(song_id).is_none() {
        return Err(SendRideError::SongNotFound);
    }
    let shape = match split_x_separated(track_shape) {
        Ok(v) => v,
        Err(_) => {
            return Err(SendRideError::BadTrackShape);
        },
    };
    let stats = match split_comma_separated(xstats) {
        Ok(v) => v,
        Err(_) => {
            return Err(SendRideError::BadXstats);
        },
    };
    let beat_score = compute_beat_score(store, song_id, league, pid, score, now);
    let ghost pre = *store;
    let ns = NewScore::new(
        pid,
        song_id,
        league,
        score,
        shape,
        stats,
        density,
        vehicle,
        feats,
        song_length,
        gold_threshold,
        iss,
        isj,
    );
    let idx = ns.create_or_update(store, now);
    proof {
        assert(seq_i32_int(ns.track_shape@) =~= x_list_vals(track_shape@));
        assert(seq_i32_int(ns.xstats@) =~= comma_list_vals(xstats@));
        assert(submit_effect(pre, *store, ns, now as int, idx as int));
        assert(pre == *old(store));
        assert(exists|w: NewScore|
            {
                &&& #[trigger] seq_i32_int(w.track_shape@) == x_list_vals(track_shape@)
                &&& w.player_id == player_id
                &&& w.song_id == song_id
                &&& w.league == league
                &&& w.score == score
                &&& w.vehicle == vehicle
                &&& w.feats@ == feats@
                &&& w.song_length == song_length
                &&& w.density == density
                &&& w.gold_threshold == gold_threshold
                &&& w.iss == iss
                &&& w.isj == isj
                &&& seq_i32_int(w.xstats@) == comma_list_vals(xstats@)
                &&& submit_effect(*old(store), *store, w, now as int, idx as int)
            });
        if pre.has_top(song_id as int, league, pid as int) {
            lemma_dethrone_row_survives(pre, *store, ns, now as int, idx as int);
        }
    }
    let out = SendRideOutcome {
        beat_score,
        score_index: idx,
        enrich_duration_ms: song_length as i64 * 10,
    };
    Ok(out)
}

/// The previous leader's row belongs to another player, so a submission
/// leaves it exactly where and as it was.
#[verifier::rlimit(100)]
#[verifier::spinoff_prover]
proof fn lemma_dethrone_row_survives(pre: Store, post: Store, ns: NewScore, now: int, idx: int)
    requires
        pre.scores_wf(),
        submit_effect(pre, post, ns, now, idx),
        pre.has_top(ns.song_id as int, ns.league, ns.player_id as int),
    ensures
        ({
            let tii = pre.top_index(ns.song_id as int, ns.league, ns.player_id as int);
            let t = pre.scores@[tii];
            &&& 0 <= tii < post.scores@.len()
            &&& post.scores@[tii].id == t.id
            &&& post.scores@[tii].score == t.score
        }),
{
    reveal(submit_effect);
    let sid = ns.song_id as int;
    let pid = ns.player_id as int;
    pre.lemma_top_prefix_candidate(pre.scores@.len() as int, sid, ns.league, pid);
    let tii = pre.top_index(sid, ns.league, pid);
    let t = pre.scores@[tii];
    assert(pre.is_top_candidate(tii, sid, ns.league, pid));
    assert(t.player_id != pid);
    if !pre.has_pb(pid, sid, ns.league) {
        assert(post.scores@[tii] == t);
    } else {
        let pi = pre.pb_index(pid, sid, ns.league);
        assert(pre.scores@[pi].player_id == pid);
        assert(tii != pi);
        assert(post.scores@[tii] == t);
    }
}

/// The raw body of the track-shape endpoint: the stored shape of the ride,
/// x-joined with the protocol's trailing `x`; `None` when no such ride
/// exists.
pub fn fetch_track_shape(store: &Store, ridd: i32) -> (r: Option<String>)
    requires
        store.wf(),
    ensures
        match r {
            Some(body) => store.has_score_id(ridd as int) && body@ == joined_x(
                store.scores@[store.score_index(ridd as int)].track_shape@,
            ),
            None => !store.has_score_id(ridd as int),
        },
{
    match store.find_score(ridd) {
        Some(i) => {
            proof {
                store.lemma_score_index_at(i as int);
            }
            Some(crate::numbers::join_x_separated(&store.scores[i].track_shape))
        },
        None => None,
    }
}

} // verus!
