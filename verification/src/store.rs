//! The relational store model and its invariants.
//!
//! Tables are vectors of rows with unique ids; the leaderboard cache rides
//! along. Well-formedness (`Store::wf`) carries the properties the engine
//! relies on: at most one score per `(player, song, league)`, foreign keys,
//! and the consistency of every leaderboard value with the sum of that
//! player's per-score skill points.

use vstd::prelude::*;
use crate::leaderboard::LeaderboardCache;
use crate::models::{ExtraSongInfo, Player, Rivalry, Score, Shout, Song};
use crate::skill::sp_spec;

verus! {

/// The skill points one score contributes.
pub open spec fn sp_of(s: Score) -> int {
    sp_spec(s.score as int, s.gold_threshold as int, s.league)
}

/// The skill points a score contributes to player `pid`.
pub open spec fn sp_contrib(s: Score, pid: int) -> int {
    if s.player_id == pid {
        sp_of(s)
    } else {
        0
    }
}

/// The sum of skill points player `pid` earns from the given score rows.
pub open spec fn sum_sp(ss: Seq<Score>, pid: int) -> int
    decreases ss.len(),
{
    if ss.len() == 0 {
        0
    } else {
        sum_sp(ss.drop_last(), pid) + sp_contrib(ss.last(), pid)
    }
}

pub proof fn lemma_sum_sp_push(ss: Seq<Score>, x: Score, pid: int)
    ensures
        sum_sp(ss.push(x), pid) == sum_sp(ss, pid) + sp_contrib(x, pid),
{
    assert(ss.push(x).drop_last() =~= ss);
}

pub proof fn lemma_sum_sp_update(ss: Seq<Score>, i: int, x: Score, pid: int)
    requires
        0 <= i < ss.len(),
    ensures
        sum_sp(ss.update(i, x), pid) == sum_sp(ss, pid) - sp_contrib(ss[i], pid) + sp_contrib(
            x,
            pid,
        ),
    decreases ss.len(),
{
    if i == ss.len() - 1 {
        assert(ss.update(i, x).drop_last() =~= ss.drop_last());
        assert(ss.update(i, x).last() == x);
    } else {
        assert(ss.update(i, x).drop_last() =~= ss.drop_last().update(i, x));
        assert(ss.update(i, x).last() == ss.last());
        lemma_sum_sp_update(ss.drop_last(), i, x, pid);
    }
}

pub proof fn lemma_sum_sp_remove(ss: Seq<Score>, i: int, pid: int)
    requires
        0 <= i < ss.len(),
    ensures
        sum_sp(ss.remove(i), pid) == sum_sp(ss, pid) - sp_contrib(ss[i], pid),
    decreases ss.len(),
{
    if i == ss.len() - 1 {
        assert(ss.remove(i) =~= ss.drop_last());
    } else {
        assert(ss.remove(i).drop_last() =~= ss.drop_last().remove(i));
        assert(ss.remove(i).last() == ss.last());
        lemma_sum_sp_remove(ss.drop_last(), i, pid);
    }
}

/// A player with no score rows has a zero skill-point sum.
pub proof fn lemma_sum_sp_absent(ss: Seq<Score>, pid: int)
    requires
        forall|i: int| 0 <= i < ss.len() ==> (#[trigger] ss[i]).player_id != pid,
    ensures
        sum_sp(ss, pid) == 0,
    decreases ss.len(),
{
    if ss.len() > 0 {
        assert(forall|i: int|
            0 <= i < ss.len() - 1 ==> (#[trigger] ss.drop_last()[i]).player_id != pid);
        lemma_sum_sp_absent(ss.drop_last(), pid);
    }
}

/// The whole persisted state: the SQL tables and the cache-resident
/// leaderboard, with id allocators.
pub struct Store {
    pub players: Vec<Player>,
    pub songs: Vec<Song>,
    pub extra_infos: Vec<ExtraSongInfo>,
    pub scores: Vec<Score>,
    pub rivalries: Vec<Rivalry>,
    pub shouts: Vec<Shout>,
    pub leaderboard: LeaderboardCache,
    pub next_player_id: i32,
    pub next_song_id: i32,
    pub next_score_id: i32,
    pub next_extra_id: i32,
    pub next_shout_id: i32,
}

impl Store {
    pub open spec fn has_player_id(self, pid: int) -> bool {
        exists|i: int| 0 <= i < self.players@.len() && (#[trigger] self.players@[i]).id == pid
    }

    pub open spec fn has_song_id(self, sid: int) -> bool {
        exists|i: int| 0 <= i < self.songs@.len() && (#[trigger] self.songs@[i]).id == sid
    }

    pub open spec fn has_score_id(self, id: int) -> bool {
        exists|i: int| 0 <= i < self.scores@.len() && (#[trigger] self.scores@[i]).id == id
    }

    pub open spec fn has_shout_id(self, id: int) -> bool {
        exists|i: int| 0 <= i < self.shouts@.len() && (#[trigger] self.shouts@[i]).id == id
    }

    pub open spec fn has_extra_for_song(self, sid: int) -> bool {
        exists|i: int|
            0 <= i < self.extra_infos@.len() && (#[trigger] self.extra_infos@[i]).song_id == sid
    }

    pub open spec fn has_rivalry(self, challenger: int, rival: int) -> bool {
        exists|i: int|
            0 <= i < self.rivalries@.len() && (#[trigger] self.rivalries@[i]).challenger_id
                == challenger && self.rivalries@[i].rival_id == rival
    }

    /// A score row for this exact `(player, song, league)` triple exists.
    pub open spec fn has_pb(self, pid: int, sid: int, league: crate::game_types::League) -> bool {
        exists|i: int|
            0 <= i < self.scores@.len() && (#[trigger] self.scores@[i]).player_id == pid
                && self.scores@[i].song_id == sid && self.scores@[i].league == league
    }

    pub open spec fn players_wf(self) -> bool {
        &&& forall|i: int, j: int|
            0 <= i < j < self.players@.len() ==> (#[trigger] self.players@[i]).id != (
            #[trigger] self.players@[j]).id
        &&& forall|i: int, j: int|
            0 <= i < j < self.players@.len() ==> (
            #[trigger] self.players@[i]).steam_account_num != (
            #[trigger] self.players@[j]).steam_account_num
        &&& forall|i: int|
            0 <= i < self.players@.len() ==> (#[trigger] self.players@[i]).id
                < self.next_player_id
    }

    pub open spec fn songs_wf(self) -> bool {
        &&& forall|i: int, j: int|
            0 <= i < j < self.songs@.len() ==> (#[trigger] self.songs@[i]).id != (
            #[trigger] self.songs@[j]).id
        &&& forall|i: int|
            0 <= i < self.songs@.len() ==> (#[trigger] self.songs@[i]).id < self.next_song_id
    }

    /// Score rows: unique ids, one row per `(player, song, league)`, and
    /// both foreign keys present.
    pub open spec fn scores_wf(self) -> bool {
        &&& forall|i: int, j: int|
            0 <= i < j < self.scores@.len() ==> (#[trigger] self.scores@[i]).id != (
            #[trigger] self.scores@[j]).id
        &&& forall|i: int|
            0 <= i < self.scores@.len() ==> (#[trigger] self.scores@[i]).id < self.next_score_id
        &&& forall|i: int, j: int|
            0 <= i < j < self.scores@.len() ==> !((#[trigger] self.scores@[i]).player_id == (
            #[trigger] self.scores@[j]).player_id && self.scores@[i].song_id
                == self.scores@[j].song_id && self.scores@[i].league == self.scores@[j].league)
        &&& forall|i: int|
            0 <= i < self.scores@.len() ==> self.has_player_id(
                (#[trigger] self.scores@[i]).player_id as int,
            )
        &&& forall|i: int|
            0 <= i < self.scores@.len() ==> self.has_song_id(
                (#[trigger] self.scores@[i]).song_id as int,
            )
    }

    pub open spec fn extras_wf(self) -> bool {
        &&& forall|i: int, j: int|
            0 <= i < j < self.extra_infos@.len() ==> (#[trigger] self.extra_infos@[i]).id != (
            #[trigger] self.extra_infos@[j]).id
        &&& forall|i: int, j: int|
            0 <= i < j < self.extra_infos@.len() ==> (#[trigger] self.extra_infos@[i]).song_id
                != (#[trigger] self.extra_infos@[j]).song_id
        &&& forall|i: int|
            0 <= i < self.extra_infos@.len() ==> (#[trigger] self.extra_infos@[i]).id
                < self.next_extra_id
        &&& forall|i: int|
            0 <= i < self.extra_infos@.len() ==> self.has_song_id(
                (#[trigger] self.extra_infos@[i]).song_id as int,
            )
    }

    pub open spec fn shouts_wf(self) -> bool {
        &&& forall|i: int, j: int|
            0 <= i < j < self.shouts@.len() ==> (#[trigger] self.shouts@[i]).id != (
            #[trigger] self.shouts@[j]).id
        &&& forall|i: int|
            0 <= i < self.shouts@.len() ==> (#[trigger] self.shouts@[i]).id < self.next_shout_id
        &&& forall|i: int|
            0 <= i < self.shouts@.len() ==> self.has_song_id(
                (#[trigger] self.shouts@[i]).song_id as int,
            )
        &&& forall|i: int|
            0 <= i < self.shouts@.len() ==> self.has_player_id(
                (#[trigger] self.shouts@[i]).author_id as int,
            )
    }

    pub open spec fn rivalries_wf(self) -> bool {
        &&& forall|i: int, j: int|
            0 <= i < j < self.rivalries@.len() ==> !((
            #[trigger] self.rivalries@[i]).challenger_id == (
            #[trigger] self.rivalries@[j]).challenger_id && self.rivalries@[i].rival_id
                == self.rivalries@[j].rival_id)
        &&& forall|i: int|
            0 <= i < self.rivalries@.len() ==> self.has_player_id(
                (#[trigger] self.rivalries@[i]).challenger_id as int,
            )
        &&& forall|i: int|
            0 <= i < self.rivalries@.len() ==> self.has_player_id(
                (#[trigger] self.rivalries@[i]).rival_id as int,
            )
    }

    /// The leaderboard holds exactly the players, each with the sum of the
    /// skill points of their score rows.
    pub open spec fn leaderboard_wf(self) -> bool {
        &&& self.leaderboard.wf()
        &&& forall|i: int|
            0 <= i < self.players@.len() ==> self.leaderboard.contains_player(
                (#[trigger] self.players@[i]).id as int,
            )
        &&& forall|i: int|
            0 <= i < self.leaderboard.entries@.len() ==> self.has_player_id(
                (#[trigger] self.leaderboard.entries@[i]).player_id as int,
            )
        &&& forall|i: int|
            0 <= i < self.leaderboard.entries@.len() ==> (
            #[trigger] self.leaderboard.entries@[i]).points as int == sum_sp(
                self.scores@,
                self.leaderboard.entries@[i].player_id as int,
            )
    }

    pub open spec fn wf(self) -> bool {
        &&& self.players_wf()
        &&& self.songs_wf()
        &&& self.scores_wf()
        &&& self.extras_wf()
        &&& self.shouts_wf()
        &&& self.rivalries_wf()
        &&& self.leaderboard_wf()
    }

    /// The index of the player row with this id. Meaningful only where
    /// `has_player_id` holds.
    pub open spec fn player_index(self, pid: int) -> int {
        choose|i: int| 0 <= i < self.players@.len() && (#[trigger] self.players@[i]).id == pid
    }

    /// In a well-formed store, any index holding the player id is
    /// `player_index`.
    pub proof fn lemma_player_index_at(self, i: int)
        requires
            self.players_wf(),
            0 <= i < self.players@.len(),
        ensures
            self.has_player_id(self.players@[i].id as int),
            self.player_index(self.players@[i].id as int) == i,
    {
        let pid = self.players@[i].id as int;
        assert(self.has_player_id(pid));
        let j = self.player_index(pid);
        if i < j {
            assert(self.players@[i].id != self.players@[j].id);
        } else if j < i {
            assert(self.players@[j].id != self.players@[i].id);
        }
    }

    /// An empty store.
    pub fn new() -> (r: Store)
        ensures
            r.wf(),
            r.players@.len() == 0,
            r.songs@.len() == 0,
            r.extra_infos@.len() == 0,
            r.scores@.len() == 0,
            r.rivalries@.len() == 0,
            r.shouts@.len() == 0,
            r.leaderboard.entries@.len() == 0,
    {
        Store {
            players: Vec::new(),
            songs: Vec::new(),
            extra_infos: Vec::new(),
            scores: Vec::new(),
            rivalries: Vec::new(),
            shouts: Vec::new(),
            leaderboard: LeaderboardCache::new(),
            next_player_id: 1,
            next_song_id: 1,
            next_score_id: 1,
            next_extra_id: 1,
            next_shout_id: 1,
        }
    }

    #[verifier::loop_isolation(false)]
    pub fn find_player(&self, pid: i32) -> (r: Option<usize>)
        ensures
            match r {
                Some(i) => i < self.players@.len() && self.players@[i as int].id == pid,
                None => !self.has_player_id(pid as int),
            },
    {
        let mut i: usize = 0;
        while i < self.players.len()
            invariant
                i <= self.players@.len(),
                forall|j: int| 0 <= j < i ==> (#[trigger] self.players@[j]).id != pid,
            decreases self.players@.len() - i,
        {
            if self.players[i].id == pid {
                return Some(i);
            }
            i = i + 1;
        }
        None
    }

    #[verifier::loop_isolation(false)]
    pub fn find_player_by_steam_account(&self, num: i32) -> (r: Option<usize>)
        ensures
            match r {
                Some(i) => i < self.players@.len() && self.players@[i as int].steam_account_num
                    == num,
                None => forall|j: int|
                    0 <= j < self.players@.len() ==> (
                    #[trigger] self.players@[j]).steam_account_num != num,
            },
    {
        let mut i: usize = 0;
        while i < self.players.len()
            invariant
                i <= self.players@.len(),
                forall|j: int|
                    0 <= j < i ==> (#[trigger] self.players@[j]).steam_account_num != num,
            decreases self.players@.len() - i,
        {
            if self.players[i].steam_account_num == num {
                return Some(i);
            }
            i = i + 1;
        }
        None
    }

    #[verifier::loop_isolation(false)]
    pub fn find_song(&self, sid: i32) -> (r: Option<usize>)
        ensures
            match r {
                Some(i) => i < self.songs@.len() && self.songs@[i as int].id == sid,
                None => !self.has_song_id(sid as int),
            },
    {
        let mut i: usize = 0;
        while i < self.songs.len()
            invariant
                i <= self.songs@.len(),
                forall|j: int| 0 <= j < i ==> (#[trigger] self.songs@[j]).id != sid,
            decreases self.songs@.len() - i,
        {
            if self.songs[i].id == sid {
                return Some(i);
            }
            i = i + 1;
        }
        None
    }

    #[verifier::loop_isolation(false)]
    pub fn find_score(&self, id: i32) -> (r: Option<usize>)
        ensures
            match r {
                Some(i) => i < self.scores@.len() && self.scores@[i as int].id == id,
                None => !self.has_score_id(id as int),
            },
    {
        let mut i: usize = 0;
        while i < self.scores.len()
            invariant
                i <= self.scores@.len(),
                forall|j: int| 0 <= j < i ==> (#[trigger] self.scores@[j]).id != id,
            decreases self.scores@.len() - i,
        {
            if self.scores[i].id == id {
                return Some(i);
            }
            i = i + 1;
        }
        None
    }

    /// The player's personal-best row for a song and league, if any.
    #[verifier::loop_isolation(false)]
    pub fn find_score_by_triple(&self, pid: i32, sid: i32, league: crate::game_types::League) -> (r:
        Option<usize>)
        ensures
            match r {
                Some(i) => i < self.scores@.len() && self.scores@[i as int].player_id == pid
                    && self.scores@[i as int].song_id == sid && self.scores@[i as int].league
                    == league,
                None => !self.has_pb(pid as int, sid as int, league),
            },
    {
        let mut i: usize = 0;
        while i < self.scores.len()
            invariant
                i <= self.scores@.len(),
                forall|j: int|
                    0 <= j < i ==> !((#[trigger] self.scores@[j]).player_id == pid
                        && self.scores@[j].song_id == sid && self.scores@[j].league == league),
            decreases self.scores@.len() - i,
        {
            let s = &self.scores[i];
            if s.player_id == pid && s.song_id == sid && s.league == league {
                return Some(i);
            }
            i = i + 1;
        }
        None
    }

    #[verifier::loop_isolation(false)]
    pub fn find_extra_for_song(&self, sid: i32) -> (r: Option<usize>)
        ensures
            match r {
                Some(i) => i < self.extra_infos@.len() && self.extra_infos@[i as int].song_id
                    == sid,
                None => !self.has_extra_for_song(sid as int),
            },
    {
        let mut i: usize = 0;
        while i < self.extra_infos.len()
            invariant
                i <= self.extra_infos@.len(),
                forall|j: int| 0 <= j < i ==> (#[trigger] self.extra_infos@[j]).song_id != sid,
            decreases self.extra_infos@.len() - i,
        {
            if self.extra_infos[i].song_id == sid {
                return Some(i);
            }
            i = i + 1;
        }
        None
    }

    #[verifier::loop_isolation(false)]
    pub fn find_shout(&self, id: i32) -> (r: Option<usize>)
        ensures
            match r {
                Some(i) => i < self.shouts@.len() && self.shouts@[i as int].id == id,
                None => !self.has_shout_id(id as int),
            },
    {
        let mut i: usize = 0;
        while i < self.shouts.len()
            invariant
                i <= self.shouts@.len(),
                forall|j: int| 0 <= j < i ==> (#[trigger] self.shouts@[j]).id != id,
            decreases self.shouts@.len() - i,
        {
            if self.shouts[i].id == id {
                return Some(i);
            }
            i = i + 1;
        }
        None
    }

    /// Does `challenger` list `rival`? Rivalries are directional.
    #[verifier::loop_isolation(false)]
    pub fn rivalry_exists(&self, challenger: i32, rival: i32) -> (r: bool)
        ensures
            r == self.has_rivalry(challenger as int, rival as int),
    {
        let mut i: usize = 0;
        while i < self.rivalries.len()
            invariant
                i <= self.rivalries@.len(),
                forall|j: int|
                    0 <= j < i ==> !((#[trigger] self.rivalries@[j]).challenger_id == challenger
                        && self.rivalries@[j].rival_id == rival),
            decreases self.rivalries@.len() - i,
        {
            let rv = &self.rivalries[i];
            if rv.challenger_id == challenger && rv.rival_id == rival {
                return true;
            }
            i = i + 1;
        }
        false
    }
}

/// The position of the song with this id in a song table. Meaningful only
/// where such a row exists.
pub open spec fn song_index_of(songs: Seq<Song>, sid: int) -> int {
    choose|i: int| 0 <= i < songs.len() && (#[trigger] songs[i]).id == sid
}

/// With unique song ids, any index holding the id is `song_index_of`.
pub proof fn lemma_song_index_of_at(songs: Seq<Song>, i: int)
    requires
        forall|a: int, b: int|
            0 <= a < b < songs.len() ==> (#[trigger] songs[a]).id != (#[trigger] songs[b]).id,
        0 <= i < songs.len(),
    ensures
        song_index_of(songs, songs[i].id as int) == i,
{
    let sid = songs[i].id as int;
    assert(0 <= i < songs.len() && songs[i].id == sid);
    let j = song_index_of(songs, sid);
    if i < j {
        assert(songs[i].id != songs[j].id);
    } else if j < i {
        assert(songs[j].id != songs[i].id);
    }
}

/// The position of a song's metadata row in a metadata table. Meaningful
/// only where such a row exists.
pub open spec fn extra_index_of(extras: Seq<ExtraSongInfo>, sid: int) -> int {
    choose|i: int| 0 <= i < extras.len() && (#[trigger] extras[i]).song_id == sid
}

/// With one metadata row per song, any index holding the song id is
/// `extra_index_of`.
pub proof fn lemma_extra_index_of_at(extras: Seq<ExtraSongInfo>, i: int)
    requires
        forall|a: int, b: int|
            0 <= a < b < extras.len() ==> (#[trigger] extras[a]).song_id != (
            #[trigger] extras[b]).song_id,
        0 <= i < extras.len(),
    ensures
        extra_index_of(extras, extras[i].song_id as int) == i,
{
    let sid = extras[i].song_id as int;
    assert(0 <= i < extras.len() && extras[i].song_id == sid);
    let j = extra_index_of(extras, sid);
    if i < j {
        assert(extras[i].song_id != extras[j].song_id);
    } else if j < i {
        assert(extras[j].song_id != extras[i].song_id);
    }
}

/// Personal-best uniqueness: a well-formed store holds at most one score
/// row per `(player, song, league)` triple.
pub proof fn lemma_pb_unique(s: Store)
    requires
        s.wf(),
    ensures
        forall|i: int, j: int|
            0 <= i < j < s.scores@.len() ==> !((#[trigger] s.scores@[i]).player_id == (
            #[trigger] s.scores@[j]).player_id && s.scores@[i].song_id == s.scores@[j].song_id
                && s.scores@[i].league == s.scores@[j].league),
{
}

/// Skill-point sum consistency: in a well-formed store every player's
/// leaderboard value equals the sum of the skill points of their score rows.
pub proof fn lemma_skill_sum_consistent(s: Store)
    requires
        s.wf(),
    ensures
        forall|i: int|
            0 <= i < s.players@.len() ==> s.leaderboard.points_of(
                (#[trigger] s.players@[i]).id as int,
            ) == sum_sp(s.scores@, s.players@[i].id as int),
{
    assert forall|i: int| 0 <= i < s.players@.len() implies s.leaderboard.points_of(
        (#[trigger] s.players@[i]).id as int,
    ) == sum_sp(s.scores@, s.players@[i].id as int) by {
        let pid = s.players@[i].id as int;
        assert(s.leaderboard.contains_player(pid));
        let j = s.leaderboard.spec_index_of(pid);
        assert(s.leaderboard.entries@[j].player_id == pid);
        assert(s.leaderboard.entries@[j].points as int == sum_sp(s.scores@, pid));
    }
}

} // verus!
