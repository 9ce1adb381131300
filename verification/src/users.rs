//! Player login and the Steam friends sync.
//!
//! A Steam login upserts the player keyed by the signed account number —
//! the name and avatar follow the Steam profile — and guarantees a
//! leaderboard entry. The friends sync turns each friend's account number
//! that names a registered player into a one-way rivalry, skipping pairs
//! that already exist.

use vstd::prelude::*;
use crate::models::{NewPlayer, Player, Rivalry};
use crate::store::{lemma_sum_sp_absent, Store, sum_sp};
use crate::game_types::AccountType;

verus! {

impl Store {
    /// The index of the player with this Steam account number. Meaningful
    /// only where such a player exists.
    pub open spec fn account_index(self, num: int) -> int {
        choose|i: int|
            0 <= i < self.players@.len() && (#[trigger] self.players@[i]).steam_account_num == num
    }

    pub open spec fn has_account_num(self, num: int) -> bool {
        exists|i: int|
            0 <= i < self.players@.len() && (#[trigger] self.players@[i]).steam_account_num == num
    }

    /// In a well-formed store, any index holding the account number is
    /// `account_index`.
    pub proof fn lemma_account_index_at(self, i: int)
        requires
            self.players_wf(),
            0 <= i < self.players@.len(),
        ensures
            self.has_account_num(self.players@[i].steam_account_num as int),
            self.account_index(self.players@[i].steam_account_num as int) == i,
    {
        let num = self.players@[i].steam_account_num as int;
        assert(self.has_account_num(num));
        let j = self.account_index(num);
        if i < j {
            assert(self.players@[i].steam_account_num != self.players@[j].steam_account_num);
        } else if j < i {
            assert(self.players@[j].steam_account_num != self.players@[i].steam_account_num);
        }
    }
}

impl NewPlayer {
    /// Registers the player on first login, or refreshes the stored name
    /// and avatar, keyed by the Steam account number; either way the player
    /// ends up on the leaderboard. Returns the player row's index.
    pub fn create_or_update(&self, store: &mut Store, now: i64) -> (idx: usize)
        requires
            old(store).wf(),
            old(store).next_player_id < i32::MAX,
        ensures
            final(store).wf(),
            final(store).songs@ == old(store).songs@,
            final(store).extra_infos@ == old(store).extra_infos@,
            final(store).scores@ == old(store).scores@,
            final(store).rivalries@ == old(store).rivalries@,
            final(store).shouts@ == old(store).shouts@,
            idx < final(store).players@.len(),
            ({
                let p = final(store).players@[idx as int];
                &&& p.username@ == self.username@
                &&& p.avatar_url@ == self.avatar_url@
                &&& p.steam_account_num == self.steam_account_num
                &&& final(store).leaderboard.contains_player(p.id as int)
            }),
            if old(store).has_account_num(self.steam_account_num as int) {
                let pi = old(store).account_index(self.steam_account_num as int);
                &&& idx as int == pi
                &&& final(store).players@.len() == old(store).players@.len()
                &&& forall|k: int|
                    0 <= k < old(store).players@.len() && k != pi ==> final(store).players@[k]
                        == old(store).players@[k]
                &&& ({
                    let p = final(store).players@[pi];
                    let q = old(store).players@[pi];
                    p.id == q.id && p.steam_id == q.steam_id && p.steam_account_num
                        == q.steam_account_num && p.location_id == q.location_id
                        && p.account_type == q.account_type && p.joined_at == q.joined_at
                })
                &&& final(store).leaderboard == old(store).leaderboard
                &&& final(store).next_player_id == old(store).next_player_id
            } else {
                &&& idx as int == old(store).players@.len()
                &&& final(store).players@.len() == old(store).players@.len() + 1
                &&& forall|k: int|
                    0 <= k < old(store).players@.len() ==> final(store).players@[k] == old(
                        store,
                    ).players@[k]
                &&& ({
                    let p = final(store).players@[idx as int];
                    p.id == old(store).next_player_id && p.steam_id == self.steam_id
                        && p.location_id == 0 && p.account_type == AccountType::User
                        && p.joined_at == now
                })
                &&& final(store).next_player_id == old(store).next_player_id + 1
                &&& final(store).leaderboard.points_of(old(store).next_player_id as int) == 0
            },
    {
        match store.find_player_by_steam_account(self.steam_account_num) {
            Some(i) => {
                proof {
                    store.lemma_account_index_at(i as int);
                }
                let prev = &store.players[i];
                let row = Player {
                    id: prev.id,
                    username: self.username.clone(),
                    steam_id: prev.steam_id,
                    steam_account_num: prev.steam_account_num,
                    location_id: prev.location_id,
                    account_type: prev.account_type,
                    joined_at: prev.joined_at,
                    avatar_url: self.avatar_url.clone(),
                };
                let ghost pre = *store;
                store.players[i] = row;
                proof {
                    let ii = i as int;
                    assert(store.players_wf());
                    assert(store.scores_wf()) by {
                        assert forall|x: int|
                            0 <= x < store.scores@.len() implies store.has_player_id(
                            (#[trigger] store.scores@[x]).player_id as int,
                        ) && store.has_song_id(store.scores@[x].song_id as int) by {
                            assert(pre.has_player_id(pre.scores@[x].player_id as int));
                            let w = choose|w: int|
                                0 <= w < pre.players@.len() && (#[trigger] pre.players@[w]).id
                                    == store.scores@[x].player_id;
                            assert(store.players@[w].id == store.scores@[x].player_id);
                            assert(pre.has_song_id(pre.scores@[x].song_id as int));
                        }
                    }
                    assert(store.shouts_wf()) by {
                        assert forall|x: int|
                            0 <= x < store.shouts@.len() implies store.has_player_id(
                            (#[trigger] store.shouts@[x]).author_id as int,
                        ) && store.has_song_id(store.shouts@[x].song_id as int) by {
                            assert(pre.has_player_id(pre.shouts@[x].author_id as int));
                            let w = choose|w: int|
                                0 <= w < pre.players@.len() && (#[trigger] pre.players@[w]).id
                                    == store.shouts@[x].author_id;
                            assert(store.players@[w].id == store.shouts@[x].author_id);
                            assert(pre.has_song_id(pre.shouts@[x].song_id as int));
                        }
                    }
                    assert(store.rivalries_wf()) by {
                        assert forall|x: int|
                            0 <= x < store.rivalries@.len() implies store.has_player_id(
                            (#[trigger] store.rivalries@[x]).challenger_id as int,
                        ) && store.has_player_id(store.rivalries@[x].rival_id as int) by {
                            assert(pre.has_player_id(pre.rivalries@[x].challenger_id as int));
                            assert(pre.has_player_id(pre.rivalries@[x].rival_id as int));
                            let w = choose|w: int|
                                0 <= w < pre.players@.len() && (#[trigger] pre.players@[w]).id
                                    == store.rivalries@[x].challenger_id;
                            assert(store.players@[w].id == store.rivalries@[x].challenger_id);
                            let v = choose|v: int|
                                0 <= v < pre.players@.len() && (#[trigger] pre.players@[v]).id
                                    == store.rivalries@[x].rival_id;
                            assert(store.players@[v].id == store.rivalries@[x].rival_id);
                        }
                    }
                    assert(store.leaderboard_wf()) by {
                        assert forall|e: int|
                            0 <= e < store.leaderboard.entries@.len() implies store.has_player_id(
                            (#[trigger] store.leaderboard.entries@[e]).player_id as int,
                        ) by {
                            assert(pre.has_player_id(
                                pre.leaderboard.entries@[e].player_id as int,
                            ));
                            let w = choose|w: int|
                                0 <= w < pre.players@.len() && (#[trigger] pre.players@[w]).id
                                    == store.leaderboard.entries@[e].player_id;
                            assert(store.players@[w].id
                                == store.leaderboard.entries@[e].player_id);
                        }
                        assert forall|x: int|
                            0 <= x < store.players@.len() implies store.leaderboard.contains_player(
                            (#[trigger] store.players@[x]).id as int,
                        ) by {
                            assert(pre.leaderboard.contains_player(pre.players@[x].id as int));
                        }
                    }
                    assert(store.leaderboard.contains_player(store.players@[ii].id as int));
                }
                i
            },
            None => {
                let id = store.next_player_id;
                let row = Player {
                    id,
                    username: self.username.clone(),
                    steam_id: self.steam_id,
                    steam_account_num: self.steam_account_num,
                    location_id: 0,
                    account_type: AccountType::User,
                    joined_at: now,
                    avatar_url: self.avatar_url.clone(),
                };
                let ghost pre = *store;
                let idx = store.players.len();
                store.players.push(row);
                store.next_player_id = id + 1;
                proof {
                    assert(store.players_wf()) by {
                        assert forall|x: int, y: int|
                            0 <= x < y < store.players@.len() implies (
                        #[trigger] store.players@[x]).id != (#[trigger] store.players@[y]).id
                            && store.players@[x].steam_account_num
                            != store.players@[y].steam_account_num by {
                            if y == store.players@.len() - 1 {
                                assert(pre.players@[x].id < pre.next_player_id);
                                assert(pre.players@[x].steam_account_num
                                    != self.steam_account_num);
                            }
                        }
                    }
                }
                store.leaderboard.add_or_reset(id);
                proof {
                    assert(store.scores_wf()) by {
                        assert forall|x: int|
                            0 <= x < store.scores@.len() implies store.has_player_id(
                            (#[trigger] store.scores@[x]).player_id as int,
                        ) && store.has_song_id(store.scores@[x].song_id as int) by {
                            assert(pre.has_player_id(pre.scores@[x].player_id as int));
                            let w = choose|w: int|
                                0 <= w < pre.players@.len() && (#[trigger] pre.players@[w]).id
                                    == store.scores@[x].player_id;
                            assert(store.players@[w].id == store.scores@[x].player_id);
                            assert(pre.has_song_id(pre.scores@[x].song_id as int));
                        }
                    }
                    assert(store.shouts_wf()) by {
                        assert forall|x: int|
                            0 <= x < store.shouts@.len() implies store.has_player_id(
                            (#[trigger] store.shouts@[x]).author_id as int,
                        ) && store.has_song_id(store.shouts@[x].song_id as int) by {
                            assert(pre.has_player_id(pre.shouts@[x].author_id as int));
                            let w = choose|w: int|
                                0 <= w < pre.players@.len() && (#[trigger] pre.players@[w]).id
                                    == store.shouts@[x].author_id;
                            assert(store.players@[w].id == store.shouts@[x].author_id);
                            assert(pre.has_song_id(pre.shouts@[x].song_id as int));
                        }
                    }
                    assert(store.rivalries_wf()) by {
                        assert forall|x: int|
                            0 <= x < store.rivalries@.len() implies store.has_player_id(
                            (#[trigger] store.rivalries@[x]).challenger_id as int,
                        ) && store.has_player_id(store.rivalries@[x].rival_id as int) by {
                            assert(pre.has_player_id(pre.rivalries@[x].challenger_id as int));
                            assert(pre.has_player_id(pre.rivalries@[x].rival_id as int));
                            let w = choose|w: int|
                                0 <= w < pre.players@.len() && (#[trigger] pre.players@[w]).id
                                    == store.rivalries@[x].challenger_id;
                            assert(store.players@[w].id == store.rivalries@[x].challenger_id);
                            let v = choose|v: int|
                                0 <= v < pre.players@.len() && (#[trigger] pre.players@[v]).id
                                    == store.rivalries@[x].rival_id;
                            assert(store.players@[v].id == store.rivalries@[x].rival_id);
                        }
                    }
                    assert(store.leaderboard_wf()) by {
                        assert(!pre.leaderboard.contains_player(id as int)) by {
                            if pre.leaderboard.contains_player(id as int) {
                                let e = pre.leaderboard.spec_index_of(id as int);
                                assert(pre.leaderboard.entries@[e].player_id == id);
                                assert(pre.has_player_id(id as int));
                                let w = choose|w: int|
                                    0 <= w < pre.players@.len() && (#[trigger] pre.players@[w]).id
                                        == id;
                                assert(pre.players@[w].id < pre.next_player_id);
                            }
                        }
                        assert forall|e: int|
                            0 <= e < store.leaderboard.entries@.len() implies (
                        #[trigger] store.leaderboard.entries@[e]).points as int == sum_sp(
                            store.scores@,
                            store.leaderboard.entries@[e].player_id as int,
                        ) && store.has_player_id(
                            store.leaderboard.entries@[e].player_id as int,
                        ) by {
                            if e < store.leaderboard.entries@.len() - 1 {
                                assert(store.leaderboard.entries@[e]
                                    == pre.leaderboard.entries@[e]);
                                assert(pre.has_player_id(
                                    pre.leaderboard.entries@[e].player_id as int,
                                ));
                                let w = choose|w: int|
                                    0 <= w < pre.players@.len() && (#[trigger] pre.players@[w]).id
                                        == store.leaderboard.entries@[e].player_id;
                                assert(store.players@[w].id
                                    == store.leaderboard.entries@[e].player_id);
                            } else {
                                assert(store.leaderboard.entries@[e] == (
                                crate::leaderboard::LbEntry { player_id: id, points: 0 }));
                                assert(forall|x: int|
                                    0 <= x < store.scores@.len() ==> (
                                    #[trigger] store.scores@[x]).player_id != id) by {
                                    assert forall|x: int|
                                        0 <= x < store.scores@.len() implies (
                                    #[trigger] store.scores@[x]).player_id != id by {
                                        assert(pre.has_player_id(
                                            pre.scores@[x].player_id as int,
                                        ));
                                        let w = choose|w: int|
                                            0 <= w < pre.players@.len() && (
                                            #[trigger] pre.players@[w]).id
                                                == pre.scores@[x].player_id;
                                        assert(pre.players@[w].id < pre.next_player_id);
                                    }
                                }
                                lemma_sum_sp_absent(store.scores@, id as int);
                                assert(store.players@[idx as int].id == id);
                                assert(store.has_player_id(id as int));
                            }
                        }
                        assert forall|x: int|
                            0 <= x < store.players@.len() implies store.leaderboard.contains_player(
                            (#[trigger] store.players@[x]).id as int,
                        ) by {
                            if x < store.players@.len() - 1 {
                                assert(pre.leaderboard.contains_player(
                                    pre.players@[x].id as int,
                                ));
                            }
                        }
                    }
                    assert(store.leaderboard.contains_player(id as int));
                }
                idx
            },
        }
    }
}

/// How many of the listed account numbers name a registered player.
pub open spec fn count_friends(players: Seq<Player>, nums: Seq<i32>) -> int
    decreases players.len(),
{
    if players.len() == 0 {
        0
    } else {
        count_friends(players.drop_last(), nums) + if nums.contains(
            players.last().steam_account_num,
        ) {
            1int
        } else {
            0int
        }
    }
}

/// Does the vector hold this value?
#[verifier::loop_isolation(false)]
pub fn contains_i32(v: &Vec<i32>, x: i32) -> (r: bool)
    ensures
        r == v@.contains(x),
{
    let mut i: usize = 0;
    while i < v.len()
        invariant
            i <= v@.len(),
            forall|j: int| 0 <= j < i ==> v@[j] != x,
        decreases v@.len() - i,
    {
        if v[i] == x {
            return true;
        }
        i = i + 1;
    }
    false
}

/// After syncing the first `upto` player rows: the syncing player's rival
/// set has grown by exactly the listed friends among them.
pub open spec fn rivals_synced(pre: Store, cur: Store, pid: int, nums: Seq<i32>, upto: int) -> bool {
    forall|q: int|
        cur.has_rivalry(pid, q) <==> (pre.has_rivalry(pid, q) || exists|j: int|
            0 <= j < upto && (#[trigger] pre.players@[j]).id == q && nums.contains(
                pre.players@[j].steam_account_num,
            ))
}

/// Syncs rivalries from a friend list: every listed account number that
/// names a registered player becomes that player's rival of the syncing
/// player, pairs that already exist left alone. Returns how many listed
/// numbers were found.
#[verifier::loop_isolation(false)]
#[verifier::rlimit(100)]
#[verifier::spinoff_prover]
pub fn sync_friends(store: &mut Store, player_id: i32, friend_nums: &Vec<i32>, now: i64) -> (found:
    usize)
    requires
        old(store).wf(),
        old(store).has_player_id(player_id as int),
    ensures
        final(store).wf(),
        final(store).players@ == old(store).players@,
        final(store).songs@ == old(store).songs@,
        final(store).extra_infos@ == old(store).extra_infos@,
        final(store).scores@ == old(store).scores@,
        final(store).shouts@ == old(store).shouts@,
        final(store).leaderboard == old(store).leaderboard,
        found as int == count_friends(old(store).players@, friend_nums@),
        // the rivalry set grows by exactly the found friends of this player
        rivals_synced(
            *old(store),
            *final(store),
            player_id as int,
            friend_nums@,
            old(store).players@.len() as int,
        ),
        forall|c: int, q: int|
            c != player_id as int ==> (final(store).has_rivalry(c, q) <==> old(store).has_rivalry(
                c,
                q,
            )),
{
    let ghost pre = *store;
    let mut found: usize = 0;
    let mut i: usize = 0;
    while i < store.players.len()
        invariant
            i <= store.players@.len(),
            store.players@ == pre.players@,
            store.songs@ == pre.songs@,
            store.extra_infos@ == pre.extra_infos@,
            store.scores@ == pre.scores@,
            store.shouts@ == pre.shouts@,
            store.leaderboard == pre.leaderboard,
            store.next_player_id == pre.next_player_id,
            store.next_song_id == pre.next_song_id,
            store.next_score_id == pre.next_score_id,
            store.next_extra_id == pre.next_extra_id,
            store.next_shout_id == pre.next_shout_id,
            store.rivalries_wf(),
            found <= i,
            found as int == count_friends(pre.players@.take(i as int), friend_nums@),
            rivals_synced(pre, *store, player_id as int, friend_nums@, i as int),
            forall|c: int, q: int|
                c != player_id as int ==> (store.has_rivalry(c, q) <==> pre.has_rivalry(c, q)),
        decreases store.players@.len() - i,
    {
        let ghost head = *store;
        proof {
            assert(pre.players@.take(i + 1).drop_last() =~= pre.players@.take(i as int));
            assert(pre.players@.take(i + 1).last() == pre.players@[i as int]);
        }
        let num = store.players[i].steam_account_num;
        if contains_i32(friend_nums, num) {
            found = found + 1;
            let rid = store.players[i].id;
            if !store.rivalry_exists(player_id, rid) {
                store.rivalries.push(
                    Rivalry { challenger_id: player_id, rival_id: rid, established_at: now },
                );
                proof {
                    let n = store.rivalries@.len() - 1;
                    assert(store.rivalries_wf()) by {
                        assert forall|x: int, y: int|
                            0 <= x < y < store.rivalries@.len() implies !((
                        #[trigger] store.rivalries@[x]).challenger_id == (
                        #[trigger] store.rivalries@[y]).challenger_id
                            && store.rivalries@[x].rival_id == store.rivalries@[y].rival_id) by {
                            if y == n {
                                assert(!(head.rivalries@[x].challenger_id == player_id
                                    && head.rivalries@[x].rival_id == rid));
                            }
                        }
                        assert forall|x: int|
                            0 <= x < store.rivalries@.len() implies store.has_player_id(
                            (#[trigger] store.rivalries@[x]).challenger_id as int,
                        ) && store.has_player_id(store.rivalries@[x].rival_id as int) by {
                            if x < n {
                                assert(head.has_player_id(
                                    head.rivalries@[x].challenger_id as int,
                                ));
                                assert(head.has_player_id(head.rivalries@[x].rival_id as int));
                            } else {
                                assert(store.players@[i as int].id == rid);
                            }
                        }
                    }
                    assert forall|q: int|
                        store.has_rivalry(player_id as int, q) implies head.has_rivalry(
                        player_id as int,
                        q,
                    ) || q == rid as int by {
                        let w = choose|w: int|
                            0 <= w < store.rivalries@.len() && (
                            #[trigger] store.rivalries@[w]).challenger_id == player_id
                                && store.rivalries@[w].rival_id == q;
                        if w < n {
                            assert(head.has_rivalry(player_id as int, q));
                        }
                    }
                    assert forall|c: int, q: int|
                        c != player_id as int && store.has_rivalry(c, q) implies head.has_rivalry(
                        c,
                        q,
                    ) by {
                        let w = choose|w: int|
                            0 <= w < store.rivalries@.len() && (
                            #[trigger] store.rivalries@[w]).challenger_id == c
                                && store.rivalries@[w].rival_id == q;
                        assert(w < n);
                        assert(head.has_rivalry(c, q));
                    }
                    assert forall|c: int, q: int|
                        head.has_rivalry(c, q) implies store.has_rivalry(c, q) by {
                        let w = choose|w: int|
                            0 <= w < head.rivalries@.len() && (
                            #[trigger] head.rivalries@[w]).challenger_id == c
                                && head.rivalries@[w].rival_id == q;
                        assert(store.rivalries@[w].challenger_id == c);
                    }
                    assert(store.has_rivalry(player_id as int, rid as int)) by {
                        assert(store.rivalries@[n].challenger_id == player_id);
                    }
                }
            }
        }
        proof {
            let ghost ii = i as int;
            assert(rivals_synced(pre, *store, player_id as int, friend_nums@, ii + 1)) by {
            assert forall|q: int| #![all_triggers]
                store.has_rivalry(player_id as int, q) <==> (pre.has_rivalry(player_id as int, q)
                    || exists|j: int|
                    0 <= j < ii + 1 && (#[trigger] pre.players@[j]).id == q
                        && friend_nums@.contains(pre.players@[j].steam_account_num)) by {
                // name all three states' memberships so the loop facts apply
                let ghost seen_before = pre.has_rivalry(player_id as int, q);
                let ghost seen_at_head = head.has_rivalry(player_id as int, q);
                let ghost seen_now = store.has_rivalry(player_id as int, q);
                if exists|j: int|
                    0 <= j < ii + 1 && (#[trigger] pre.players@[j]).id == q
                        && friend_nums@.contains(pre.players@[j].steam_account_num) {
                    let j = choose|j: int|
                        0 <= j < ii + 1 && (#[trigger] pre.players@[j]).id == q
                            && friend_nums@.contains(pre.players@[j].steam_account_num);
                    if j < ii {
                        assert(0 <= j < ii && pre.players@[j].id == q
                            && friend_nums@.contains(pre.players@[j].steam_account_num));
                        assert(exists|j2: int|
                            0 <= j2 < ii && (#[trigger] pre.players@[j2]).id == q
                                && friend_nums@.contains(pre.players@[j2].steam_account_num));
                        assert(head.has_rivalry(player_id as int, q));
                        assert(store.has_rivalry(player_id as int, q));
                    } else {
                        assert(pre.players@[ii].id == q);
                        assert(store.has_rivalry(player_id as int, q));
                    }
                }
                if store.has_rivalry(player_id as int, q) {
                    if pre.has_rivalry(player_id as int, q) {
                    } else if exists|j: int|
                        0 <= j < ii && (#[trigger] pre.players@[j]).id == q
                            && friend_nums@.contains(pre.players@[j].steam_account_num) {
                        let j = choose|j: int|
                            0 <= j < ii && (#[trigger] pre.players@[j]).id == q
                                && friend_nums@.contains(pre.players@[j].steam_account_num);
                        assert(0 <= j < ii + 1);
                    } else {
                        assert(pre.players@[ii].id == q && friend_nums@.contains(
                            pre.players@[ii].steam_account_num,
                        ));
                    }
                }
            }
            }
        }
        i = i + 1;
    }
    proof {
        assert(pre.players@.take(pre.players@.len() as int) =~= pre.players@);
        assert(store.players_wf());
        assert(store.songs_wf());
        assert(store.scores_wf()) by {
            assert forall|x: int| 0 <= x < store.scores@.len() implies store.has_player_id(
                (#[trigger] store.scores@[x]).player_id as int,
            ) && store.has_song_id(store.scores@[x].song_id as int) by {
                assert(pre.has_player_id(pre.scores@[x].player_id as int));
                assert(pre.has_song_id(pre.scores@[x].song_id as int));
                let w = choose|w: int|
                    0 <= w < pre.players@.len() && (#[trigger] pre.players@[w]).id
                        == store.scores@[x].player_id;
                assert(store.players@[w].id == store.scores@[x].player_id);
                let v = choose|v: int|
                    0 <= v < pre.songs@.len() && (#[trigger] pre.songs@[v]).id
                        == store.scores@[x].song_id;
                assert(store.songs@[v].id == store.scores@[x].song_id);
            }
        }
        assert(store.extras_wf()) by {
            assert forall|x: int| 0 <= x < store.extra_infos@.len() implies store.has_song_id(
                (#[trigger] store.extra_infos@[x]).song_id as int,
            ) by {
                assert(pre.has_song_id(pre.extra_infos@[x].song_id as int));
                let v = choose|v: int|
                    0 <= v < pre.songs@.len() && (#[trigger] pre.songs@[v]).id
                        == store.extra_infos@[x].song_id;
                assert(store.songs@[v].id == store.extra_infos@[x].song_id);
            }
        }
        assert(store.shouts_wf()) by {
            assert forall|x: int| 0 <= x < store.shouts@.len() implies store.has_song_id(
                (#[trigger] store.shouts@[x]).song_id as int,
            ) && store.has_player_id(store.shouts@[x].author_id as int) by {
                assert(pre.has_song_id(pre.shouts@[x].song_id as int));
                assert(pre.has_player_id(pre.shouts@[x].author_id as int));
                let v = choose|v: int|
                    0 <= v < pre.songs@.len() && (#[trigger] pre.songs@[v]).id
                        == store.shouts@[x].song_id;
                assert(store.songs@[v].id == store.shouts@[x].song_id);
                let w = choose|w: int|
                    0 <= w < pre.players@.len() && (#[trigger] pre.players@[w]).id
                        == store.shouts@[x].author_id;
                assert(store.players@[w].id == store.shouts@[x].author_id);
            }
        }
        assert(store.leaderboard_wf()) by {
            assert forall|e: int|
                0 <= e < store.leaderboard.entries@.len() implies store.has_player_id(
                (#[trigger] store.leaderboard.entries@[e]).player_id as int,
            ) by {
                assert(pre.has_player_id(pre.leaderboard.entries@[e].player_id as int));
                let w = choose|w: int|
                    0 <= w < pre.players@.len() && (#[trigger] pre.players@[w]).id
                        == store.leaderboard.entries@[e].player_id;
                assert(store.players@[w].id == store.leaderboard.entries@[e].player_id);
            }
            assert forall|x: int|
                0 <= x < store.players@.len() implies store.leaderboard.contains_player(
                (#[trigger] store.players@[x]).id as int,
            ) by {
                assert(pre.leaderboard.contains_player(pre.players@[x].id as int));
            }
        }
    }
    found
}

/// The total number of plays across a player's score rows: every
/// submission counts, improving or not.
pub open spec fn total_plays(ss: Seq<crate::models::Score>, pid: int) -> int
    decreases ss.len(),
{
    if ss.len() == 0 {
        0
    } else {
        total_plays(ss.drop_last(), pid) + if ss.last().player_id == pid {
            ss.last().play_count as int
        } else {
            0
        }
    }
}

/// Sums a player's play counts across all their score rows.
#[verifier::loop_isolation(false)]
pub fn get_total_plays(store: &Store, player_id: i32) -> (r: i64)
    requires
        store.scores@.len() <= 0x1_0000_0000,
        forall|k: int| 0 <= k < store.scores@.len() ==> (#[trigger] store.scores@[k]).play_count
            >= 0,
    ensures
        r as int == total_plays(store.scores@, player_id as int),
{
    let mut acc: i64 = 0;
    let mut i: usize = 0;
    while i < store.scores.len()
        invariant
            i <= store.scores@.len(),
            acc as int == total_plays(store.scores@.take(i as int), player_id as int),
            0 <= acc as int <= (i as int) * 0x8000_0000,
        decreases store.scores@.len() - i,
    {
        proof {
            assert(store.scores@.take(i + 1).drop_last() =~= store.scores@.take(i as int));
            assert(store.scores@.take(i + 1).last() == store.scores@[i as int]);
            let ii = i as int;
            assert((ii + 1) * 0x8000_0000 == ii * 0x8000_0000 + 0x8000_0000)
                by (nonlinear_arith);
        }
        let s = &store.scores[i];
        if s.player_id == player_id {
            acc = acc + s.play_count as i64;
        }
        i = i + 1;
    }
    proof {
        assert(store.scores@.take(store.scores@.len() as int) =~= store.scores@);
    }
    acc
}

/// Is the rivalry mutual: do both directions exist?
pub fn rivalry_is_mutual(store: &Store, a: i32, b: i32) -> (r: bool)
    ensures
        r == (store.has_rivalry(a as int, b as int) && store.has_rivalry(b as int, a as int)),
{
    store.rivalry_exists(a, b) && store.rivalry_exists(b, a)
}

/// Why a rival change was refused.
#[derive(Clone, Copy, Debug, PartialEq, Eq, Structural)]
pub enum RivalError {
    PlayerNotFound,
    AlreadyRivals,
    NotRivals,
}

/// Adds a one-way rivalry from `challenger` to `rival_id`: refused when the
/// rival does not exist or the pair already does.
pub fn add_rival(store: &mut Store, challenger: i32, rival_id: i32, now: i64) -> (r: Result<
    (),
    RivalError,
>)
    requires
        old(store).wf(),
        old(store).has_player_id(challenger as int),
    ensures
        final(store).wf(),
        final(store).players@ == old(store).players@,
        final(store).songs@ == old(store).songs@,
        final(store).scores@ == old(store).scores@,
        final(store).shouts@ == old(store).shouts@,
        final(store).extra_infos@ == old(store).extra_infos@,
        final(store).leaderboard == old(store).leaderboard,
        (r matches Err(e) && e == RivalError::PlayerNotFound) <==> !old(store).has_player_id(
            rival_id as int,
        ),
        (r matches Err(e) && e == RivalError::AlreadyRivals) <==> (old(store).has_player_id(
            rival_id as int,
        ) && old(store).has_rivalry(challenger as int, rival_id as int)),
        r is Err ==> final(store).rivalries@ == old(store).rivalries@,
        r is Ok ==> final(store).rivalries@.len() == old(store).rivalries@.len() + 1,
        r is Ok ==> forall|k: int|
            0 <= k < old(store).rivalries@.len() ==> final(store).rivalries@[k] == old(
                store,
            ).rivalries@[k],
        r is Ok ==> ({
            let rv = final(store).rivalries@.last();
            rv.challenger_id == challenger && rv.rival_id == rival_id && rv.established_at == now
        }),
{
    if store.find_player(rival_id).is_none() {
        return Err(RivalError::PlayerNotFound);
    }
    if store.rivalry_exists(challenger, rival_id) {
        return Err(RivalError::AlreadyRivals);
    }
    let ghost pre = *store;
    store.rivalries.push(
        Rivalry { challenger_id: challenger, rival_id, established_at: now },
    );
    proof {
        let n = store.rivalries@.len() - 1;
        assert(store.rivalries_wf()) by {
            assert forall|x: int, y: int|
                0 <= x < y < store.rivalries@.len() implies !((
            #[trigger] store.rivalries@[x]).challenger_id == (
            #[trigger] store.rivalries@[y]).challenger_id && store.rivalries@[x].rival_id
                == store.rivalries@[y].rival_id) by {
                if y == n {
                    assert(!(pre.rivalries@[x].challenger_id == challenger
                        && pre.rivalries@[x].rival_id == rival_id));
                }
            }
            assert forall|x: int| 0 <= x < store.rivalries@.len() implies store.has_player_id(
                (#[trigger] store.rivalries@[x]).challenger_id as int,
            ) && store.has_player_id(store.rivalries@[x].rival_id as int) by {
                if x < n {
                    assert(pre.has_player_id(pre.rivalries@[x].challenger_id as int));
                    assert(pre.has_player_id(pre.rivalries@[x].rival_id as int));
                } else {
                    assert(pre.has_player_id(challenger as int));
                    assert(pre.has_player_id(rival_id as int));
                }
                let w = choose|w: int|
                    0 <= w < pre.players@.len() && (#[trigger] pre.players@[w]).id
                        == store.rivalries@[x].challenger_id;
                assert(store.players@[w].id == store.rivalries@[x].challenger_id);
                let v = choose|v: int|
                    0 <= v < pre.players@.len() && (#[trigger] pre.players@[v]).id
                        == store.rivalries@[x].rival_id;
                assert(store.players@[v].id == store.rivalries@[x].rival_id);
            }
        }
    }
    Ok(())
}

/// Removes the one-way rivalry from `challenger` to `rival_id`: refused
/// when the rival player does not exist or the pair never did.
#[verifier::loop_isolation(false)]
pub fn remove_rival(store: &mut Store, challenger: i32, rival_id: i32) -> (r: Result<
    (),
    RivalError,
>)
    requires
        old(store).wf(),
    ensures
        final(store).wf(),
        final(store).players@ == old(store).players@,
        final(store).songs@ == old(store).songs@,
        final(store).scores@ == old(store).scores@,
        final(store).shouts@ == old(store).shouts@,
        final(store).extra_infos@ == old(store).extra_infos@,
        final(store).leaderboard == old(store).leaderboard,
        (r matches Err(e) && e == RivalError::PlayerNotFound) <==> !old(store).has_player_id(
            rival_id as int,
        ),
        (r matches Err(e) && e == RivalError::NotRivals) <==> (old(store).has_player_id(
            rival_id as int,
        ) && !old(store).has_rivalry(challenger as int, rival_id as int)),
        r is Err ==> final(store).rivalries@ == old(store).rivalries@,
        r is Ok ==> !final(store).has_rivalry(challenger as int, rival_id as int),
        forall|c: int, q: int|
            !(c == challenger as int && q == rival_id as int) ==> (final(store).has_rivalry(c, q)
                <==> old(store).has_rivalry(c, q)),
{
    if store.find_player(rival_id).is_none() {
        return Err(RivalError::PlayerNotFound);
    }
    let mut i: usize = 0;
    let n = store.rivalries.len();
    while i < n
        invariant
            i <= n == store.rivalries@.len(),
            *store == *old(store),
            forall|k: int|
                0 <= k < i ==> !((#[trigger] store.rivalries@[k]).challenger_id == challenger
                    && store.rivalries@[k].rival_id == rival_id),
        decreases n - i,
    {
        let rv = &store.rivalries[i];
        if rv.challenger_id == challenger && rv.rival_id == rival_id {
            let ghost pre = *store;
            store.rivalries.remove(i);
            proof {
                let ii = i as int;
                assert(store.rivalries@ =~= pre.rivalries@.remove(ii));
                assert(store.rivalries_wf()) by {
                    assert forall|x: int| 0 <= x < store.rivalries@.len() implies store.has_player_id(
                        (#[trigger] store.rivalries@[x]).challenger_id as int,
                    ) && store.has_player_id(store.rivalries@[x].rival_id as int) by {
                        let src = if x < ii {
                            x
                        } else {
                            x + 1
                        };
                        assert(store.rivalries@[x] == pre.rivalries@[src]);
                        assert(pre.has_player_id(pre.rivalries@[src].challenger_id as int));
                        assert(pre.has_player_id(pre.rivalries@[src].rival_id as int));
                        let w = choose|w: int|
                            0 <= w < pre.players@.len() && (#[trigger] pre.players@[w]).id
                                == store.rivalries@[x].challenger_id;
                        assert(store.players@[w].id == store.rivalries@[x].challenger_id);
                        let v = choose|v: int|
                            0 <= v < pre.players@.len() && (#[trigger] pre.players@[v]).id
                                == store.rivalries@[x].rival_id;
                        assert(store.players@[v].id == store.rivalries@[x].rival_id);
                    }
                }
                assert(!store.has_rivalry(challenger as int, rival_id as int)) by {
                    if store.has_rivalry(challenger as int, rival_id as int) {
                        let w = choose|w: int|
                            0 <= w < store.rivalries@.len() && (
                            #[trigger] store.rivalries@[w]).challenger_id == challenger
                                && store.rivalries@[w].rival_id == rival_id;
                        let src = if w < ii {
                            w
                        } else {
                            w + 1
                        };
                        assert(store.rivalries@[w] == pre.rivalries@[src]);
                        assert(src != ii);
                        assert(!(pre.rivalries@[src].challenger_id
                            == pre.rivalries@[ii].challenger_id && pre.rivalries@[src].rival_id
                            == pre.rivalries@[ii].rival_id));
                    }
                }
                assert forall|c: int, q: int|
                    !(c == challenger as int && q == rival_id as int) implies (store.has_rivalry(
                    c,
                    q,
                ) <==> pre.has_rivalry(c, q)) by {
                    if store.has_rivalry(c, q) {
                        let w = choose|w: int|
                            0 <= w < store.rivalries@.len() && (
                            #[trigger] store.rivalries@[w]).challenger_id == c
                                && store.rivalries@[w].rival_id == q;
                        let src = if w < ii {
                            w
                        } else {
                            w + 1
                        };
                        assert(store.rivalries@[w] == pre.rivalries@[src]);
                        assert(pre.has_rivalry(c, q));
                    }
                    if pre.has_rivalry(c, q) {
                        let w = choose|w: int|
                            0 <= w < pre.rivalries@.len() && (
                            #[trigger] pre.rivalries@[w]).challenger_id == c
                                && pre.rivalries@[w].rival_id == q;
                        assert(w != ii);
                        let dst = if w < ii {
                            w
                        } else {
                            w - 1
                        };
                        assert(store.rivalries@[dst] == pre.rivalries@[w]);
                        assert(store.has_rivalry(c, q));
                    }
                }
            }
            return Ok(());
        }
        i = i + 1;
    }
    Err(RivalError::NotRivals)
}

/// Sets a player's account rank — the promotion and demotion command.
/// Returns whether the player exists.
pub fn set_account_type(store: &mut Store, player_id: i32, new_type: AccountType) -> (r: bool)
    requires
        old(store).wf(),
    ensures
        final(store).wf(),
        r == old(store).has_player_id(player_id as int),
        !r ==> *final(store) == *old(store),
        final(store).songs@ == old(store).songs@,
        final(store).extra_infos@ == old(store).extra_infos@,
        final(store).scores@ == old(store).scores@,
        final(store).rivalries@ == old(store).rivalries@,
        final(store).shouts@ == old(store).shouts@,
        final(store).leaderboard == old(store).leaderboard,
        r ==> {
            let pi = old(store).player_index(player_id as int);
            &&& final(store).players@.len() == old(store).players@.len()
            &&& forall|k: int|
                0 <= k < old(store).players@.len() && k != pi ==> final(store).players@[k] == old(
                    store,
                ).players@[k]
            &&& ({
                let p = final(store).players@[pi];
                let q = old(store).players@[pi];
                &&& p.account_type == new_type
                &&& p.id == q.id
                &&& p.username@ == q.username@
                &&& p.steam_id == q.steam_id
                &&& p.steam_account_num == q.steam_account_num
                &&& p.location_id == q.location_id
                &&& p.joined_at == q.joined_at
                &&& p.avatar_url@ == q.avatar_url@
            })
        },
{
    let i = match store.find_player(player_id) {
        Some(i) => i,
        None => {
            return false;
        },
    };
    proof {
        store.lemma_player_index_at(i as int);
    }
    let prev = &store.players[i];
    let row = Player {
        id: prev.id,
        username: prev.username.clone(),
        steam_id: prev.steam_id,
        steam_account_num: prev.steam_account_num,
        location_id: prev.location_id,
        account_type: new_type,
        joined_at: prev.joined_at,
        avatar_url: prev.avatar_url.clone(),
    };
    let ghost pre = *store;
    store.players[i] = row;
    proof {
        assert(store.players_wf());
        assert(store.scores_wf()) by {
            assert forall|x: int| 0 <= x < store.scores@.len() implies store.has_player_id(
                (#[trigger] store.scores@[x]).player_id as int,
            ) && store.has_song_id(store.scores@[x].song_id as int) by {
                assert(pre.has_player_id(pre.scores@[x].player_id as int));
                let w = choose|w: int|
                    0 <= w < pre.players@.len() && (#[trigger] pre.players@[w]).id
                        == store.scores@[x].player_id;
                assert(store.players@[w].id == store.scores@[x].player_id);
                assert(pre.has_song_id(pre.scores@[x].song_id as int));
            }
        }
        assert(store.shouts_wf()) by {
            assert forall|x: int| 0 <= x < store.shouts@.len() implies store.has_player_id(
                (#[trigger] store.shouts@[x]).author_id as int,
            ) && store.has_song_id(store.shouts@[x].song_id as int) by {
                assert(pre.has_player_id(pre.shouts@[x].author_id as int));
                let w = choose|w: int|
                    0 <= w < pre.players@.len() && (#[trigger] pre.players@[w]).id
                        == store.shouts@[x].author_id;
                assert(store.players@[w].id == store.shouts@[x].author_id);
                assert(pre.has_song_id(pre.shouts@[x].song_id as int));
            }
        }
        assert(store.rivalries_wf()) by {
            assert forall|x: int| 0 <= x < store.rivalries@.len() implies store.has_player_id(
                (#[trigger] store.rivalries@[x]).challenger_id as int,
            ) && store.has_player_id(store.rivalries@[x].rival_id as int) by {
                assert(pre.has_player_id(pre.rivalries@[x].challenger_id as int));
                assert(pre.has_player_id(pre.rivalries@[x].rival_id as int));
                let w = choose|w: int|
                    0 <= w < pre.players@.len() && (#[trigger] pre.players@[w]).id
                        == store.rivalries@[x].challenger_id;
                assert(store.players@[w].id == store.rivalries@[x].challenger_id);
                let v = choose|v: int|
                    0 <= v < pre.players@.len() && (#[trigger] pre.players@[v]).id
                        == store.rivalries@[x].rival_id;
                assert(store.players@[v].id == store.rivalries@[x].rival_id);
            }
        }
        assert(store.leaderboard_wf()) by {
            assert forall|e: int|
                0 <= e < store.leaderboard.entries@.len() implies store.has_player_id(
                (#[trigger] store.leaderboard.entries@[e]).player_id as int,
            ) by {
                assert(pre.has_player_id(pre.leaderboard.entries@[e].player_id as int));
                let w = choose|w: int|
                    0 <= w < pre.players@.len() && (#[trigger] pre.players@[w]).id
                        == store.leaderboard.entries@[e].player_id;
                assert(store.players@[w].id == store.leaderboard.entries@[e].player_id);
            }
            assert forall|x: int|
                0 <= x < store.players@.len() implies store.leaderboard.contains_player(
                (#[trigger] store.players@[x]).id as int,
            ) by {
                assert(pre.leaderboard.contains_player(pre.players@[x].id as int));
            }
        }
    }
    true
}

} // verus!
