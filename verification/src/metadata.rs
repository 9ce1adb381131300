//! Attaching and refreshing a song's extra metadata.
//!
//! The metadata row is one-to-one with its song. A manual update writes
//! only the fields it carries; a MusicBrainz refresh overwrites the
//! canonical naming, id, length and covers while keeping the alias lists
//! and the mistag lock. The automatic lookup is only wanted while a song
//! has no metadata row at all.

use vstd::prelude::*;
use crate::models::{ExtraSongInfo, MusicBrainzInfo, NewExtraSongInfo};
use crate::store::Store;

verus! {

impl Store {
    /// The index of the metadata row of this song. Meaningful only where
    /// `has_extra_for_song` holds.
    pub open spec fn extra_index(self, sid: int) -> int {
        choose|i: int|
            0 <= i < self.extra_infos@.len() && (#[trigger] self.extra_infos@[i]).song_id == sid
    }

    /// In a well-formed store, any index holding the song id is
    /// `extra_index`.
    pub proof fn lemma_extra_index_at(self, i: int)
        requires
            self.extras_wf(),
            0 <= i < self.extra_infos@.len(),
        ensures
            self.has_extra_for_song(self.extra_infos@[i].song_id as int),
            self.extra_index(self.extra_infos@[i].song_id as int) == i,
    {
        let sid = self.extra_infos@[i].song_id as int;
        assert(self.has_extra_for_song(sid));
        let j = self.extra_index(sid);
        if i < j {
            assert(self.extra_infos@[i].song_id != self.extra_infos@[j].song_id);
        } else if j < i {
            assert(self.extra_infos@[j].song_id != self.extra_infos@[i].song_id);
        }
    }

    /// Should the automatic lookup run for this song: only while it has no
    /// metadata row at all.
    pub fn auto_add_metadata_needed(&self, song_id: i32) -> (r: bool)
        ensures
            r == !self.has_extra_for_song(song_id as int),
    {
        self.find_extra_for_song(song_id).is_none()
    }
}

/// An optional field of a manual metadata update: a carried value is
/// written, an absent one leaves the stored value.
pub open spec fn upsert_field(new: Option<String>, prev: Option<String>) -> Option<String> {
    match new {
        Some(v) => Some(v),
        None => prev,
    }
}

/// An optional alias list of a manual update, by the same rule.
pub open spec fn upsert_list_field(new: Option<Vec<String>>, prev: Option<Vec<String>>) -> Option<
    Vec<String>,
> {
    match new {
        Some(v) => Some(v),
        None => prev,
    }
}

/// Optional strings equal by value.
pub open spec fn opt_str_eq(a: Option<String>, b: Option<String>) -> bool {
    match (a, b) {
        (Some(x), Some(y)) => x@ == y@,
        (None, None) => true,
        _ => false,
    }
}

/// Optional string lists equal by value.
pub open spec fn opt_strs_eq(a: Option<Vec<String>>, b: Option<Vec<String>>) -> bool {
    match (a, b) {
        (Some(x), Some(y)) => x.deep_view() == y.deep_view(),
        (None, None) => true,
        _ => false,
    }
}

/// The song's metadata row before the write, if it had one.
pub open spec fn prev_extra_row(pre: Store, sid: int) -> Option<ExtraSongInfo> {
    if pre.has_extra_for_song(sid) {
        Some(pre.extra_infos@[crate::store::extra_index_of(pre.extra_infos@, sid)])
    } else {
        None
    }
}

fn pick_field(new: &Option<String>, prev: &Option<String>) -> (r: Option<String>)
    ensures
        match upsert_field(*new, *prev) {
            Some(v) => r matches Some(x) && x@ == v@,
            None => r is None,
        },
{
    match new {
        Some(v) => Some(v.clone()),
        None => match prev {
            Some(p) => Some(p.clone()),
            None => None,
        },
    }
}

impl NewExtraSongInfo {
    /// Writes a metadata row for the song: carried fields replace stored
    /// ones, absent fields keep them; a song without a row gets a fresh
    /// one. The mistag lock is never touched here.
    pub fn upsert(&self, store: &mut Store)
        requires
            old(store).wf(),
            old(store).has_song_id(self.song_id as int),
            old(store).next_extra_id < i32::MAX,
        ensures
            final(store).wf(),
            final(store).players@ == old(store).players@,
            final(store).songs@ == old(store).songs@,
            final(store).scores@ == old(store).scores@,
            final(store).rivalries@ == old(store).rivalries@,
            final(store).shouts@ == old(store).shouts@,
            final(store).leaderboard == old(store).leaderboard,
            final(store).has_extra_for_song(self.song_id as int),
            ({
                let prev = prev_extra_row(*old(store), self.song_id as int);
                let prev_cover = match prev {
                    Some(p) => p.cover_url,
                    None => None,
                };
                let prev_cover_small = match prev {
                    Some(p) => p.cover_url_small,
                    None => None,
                };
                let prev_mbid = match prev {
                    Some(p) => p.mbid,
                    None => None,
                };
                let prev_title = match prev {
                    Some(p) => p.musicbrainz_title,
                    None => None,
                };
                let prev_artist = match prev {
                    Some(p) => p.musicbrainz_artist,
                    None => None,
                };
                let prev_len = match prev {
                    Some(p) => p.musicbrainz_length,
                    None => None,
                };
                let prev_aa = match prev {
                    Some(p) => p.aliases_artist,
                    None => None,
                };
                let prev_at = match prev {
                    Some(p) => p.aliases_title,
                    None => None,
                };
                let e = final(store).extra_infos@[final(store).extra_index(
                    self.song_id as int,
                )];
                &&& e.song_id == self.song_id
                &&& opt_str_eq(e.cover_url, upsert_field(self.cover_url, prev_cover))
                &&& opt_str_eq(
                    e.cover_url_small,
                    upsert_field(self.cover_url_small, prev_cover_small),
                )
                &&& opt_str_eq(e.mbid, upsert_field(self.mbid, prev_mbid))
                &&& opt_str_eq(
                    e.musicbrainz_title,
                    upsert_field(self.musicbrainz_title, prev_title),
                )
                &&& opt_str_eq(
                    e.musicbrainz_artist,
                    upsert_field(self.musicbrainz_artist, prev_artist),
                )
                &&& e.musicbrainz_length == (match self.musicbrainz_length {
                    Some(v) => Some(v),
                    None => prev_len,
                })
                &&& e.mistag_lock == (match prev {
                    Some(p) => p.mistag_lock,
                    None => false,
                })
                &&& opt_strs_eq(
                    e.aliases_artist,
                    upsert_list_field(self.aliases_artist, prev_aa),
                )
                &&& opt_strs_eq(e.aliases_title, upsert_list_field(self.aliases_title, prev_at))
            }),
            forall|k: int|
                0 <= k < final(store).extra_infos@.len() && final(store).extra_infos@[k].song_id
                    != self.song_id ==> #[trigger] final(store).extra_infos@[k]
                    == old(store).extra_infos@[k],
    {
        match store.find_extra_for_song(self.song_id) {
            Some(i) => {
                proof {
                    store.lemma_extra_index_at(i as int);
                }
                let prev = &store.extra_infos[i];
                let row = ExtraSongInfo {
                    id: prev.id,
                    song_id: prev.song_id,
                    cover_url: pick_field(&self.cover_url, &prev.cover_url),
                    cover_url_small: pick_field(&self.cover_url_small, &prev.cover_url_small),
                    mbid: pick_field(&self.mbid, &prev.mbid),
                    musicbrainz_title: pick_field(
                        &self.musicbrainz_title,
                        &prev.musicbrainz_title,
                    ),
                    musicbrainz_artist: pick_field(
                        &self.musicbrainz_artist,
                        &prev.musicbrainz_artist,
                    ),
                    musicbrainz_length: match self.musicbrainz_length {
                        Some(v) => Some(v),
                        None => prev.musicbrainz_length,
                    },
                    mistag_lock: prev.mistag_lock,
                    aliases_artist: match &self.aliases_artist {
                        Some(v) => Some(crate::engine::clone_strings(v)),
                        None => match &prev.aliases_artist {
                            Some(p) => Some(crate::engine::clone_strings(p)),
                            None => None,
                        },
                    },
                    aliases_title: match &self.aliases_title {
                        Some(v) => Some(crate::engine::clone_strings(v)),
                        None => match &prev.aliases_title {
                            Some(p) => Some(crate::engine::clone_strings(p)),
                            None => None,
                        },
                    },
                };
                let ghost pre = *store;
                store.extra_infos[i] = row;
                proof {
                    extras_update_wf(pre, *store, i as int);
                    store.lemma_extra_index_at(i as int);
                }
            },
            None => {
                let id = store.next_extra_id;
                let row = ExtraSongInfo {
                    id,
                    song_id: self.song_id,
                    cover_url: pick_field(&self.cover_url, &None),
                    cover_url_small: pick_field(&self.cover_url_small, &None),
                    mbid: pick_field(&self.mbid, &None),
                    musicbrainz_title: pick_field(&self.musicbrainz_title, &None),
                    musicbrainz_artist: pick_field(&self.musicbrainz_artist, &None),
                    musicbrainz_length: self.musicbrainz_length,
                    mistag_lock: false,
                    aliases_artist: match &self.aliases_artist {
                        Some(v) => Some(crate::engine::clone_strings(v)),
                        None => None,
                    },
                    aliases_title: match &self.aliases_title {
                        Some(v) => Some(crate::engine::clone_strings(v)),
                        None => None,
                    },
                };
                let ghost pre = *store;
                let n = store.extra_infos.len();
                store.extra_infos.push(row);
                store.next_extra_id = id + 1;
                proof {
                    extras_push_wf(pre, *store, self.song_id as int);
                    store.lemma_extra_index_at(n as int);
                }
            },
        }
    }
}

/// Refreshes a song's metadata from a MusicBrainz recording: the canonical
/// naming, recording id, length and covers are overwritten; alias lists and
/// the mistag lock stay. A song without a row gets a fresh one.
pub fn apply_musicbrainz(store: &mut Store, song_id: i32, info: &MusicBrainzInfo)
    requires
        old(store).wf(),
        old(store).has_song_id(song_id as int),
        old(store).next_extra_id < i32::MAX,
    ensures
        final(store).wf(),
        final(store).players@ == old(store).players@,
        final(store).songs@ == old(store).songs@,
        final(store).scores@ == old(store).scores@,
        final(store).rivalries@ == old(store).rivalries@,
        final(store).shouts@ == old(store).shouts@,
        final(store).leaderboard == old(store).leaderboard,
        final(store).has_extra_for_song(song_id as int),
        ({
            let prev = prev_extra_row(*old(store), song_id as int);
            let e = final(store).extra_infos@[final(store).extra_index(song_id as int)];
            &&& e.song_id == song_id
            &&& e.mbid matches Some(x) && x@ == info.mbid@
            &&& e.musicbrainz_title matches Some(x) && x@ == info.musicbrainz_title@
            &&& e.musicbrainz_artist matches Some(x) && x@ == info.musicbrainz_artist@
            &&& e.musicbrainz_length == Some(info.musicbrainz_length)
            &&& opt_str_eq(e.cover_url, info.cover_url)
            &&& opt_str_eq(e.cover_url_small, info.cover_url_small)
            &&& e.mistag_lock == (match prev {
                Some(p) => p.mistag_lock,
                None => false,
            })
            &&& opt_strs_eq(e.aliases_artist, match prev {
                Some(p) => p.aliases_artist,
                None => None,
            })
            &&& opt_strs_eq(e.aliases_title, match prev {
                Some(p) => p.aliases_title,
                None => None,
            })
        }),
        forall|k: int|
            0 <= k < final(store).extra_infos@.len() && final(store).extra_infos@[k].song_id
                != song_id ==> #[trigger] final(store).extra_infos@[k] == old(
                store,
            ).extra_infos@[k],
{
    match store.find_extra_for_song(song_id) {
        Some(i) => {
            proof {
                store.lemma_extra_index_at(i as int);
            }
            let prev = &store.extra_infos[i];
            let row = ExtraSongInfo {
                id: prev.id,
                song_id: prev.song_id,
                cover_url: match &info.cover_url {
                    Some(v) => Some(v.clone()),
                    None => None,
                },
                cover_url_small: match &info.cover_url_small {
                    Some(v) => Some(v.clone()),
                    None => None,
                },
                mbid: Some(info.mbid.clone()),
                musicbrainz_title: Some(info.musicbrainz_title.clone()),
                musicbrainz_artist: Some(info.musicbrainz_artist.clone()),
                musicbrainz_length: Some(info.musicbrainz_length),
                mistag_lock: prev.mistag_lock,
                aliases_artist: match &prev.aliases_artist {
                    Some(p) => Some(crate::engine::clone_strings(p)),
                    None => None,
                },
                aliases_title: match &prev.aliases_title {
                    Some(p) => Some(crate::engine::clone_strings(p)),
                    None => None,
                },
            };
            let ghost pre = *store;
            store.extra_infos[i] = row;
            proof {
                extras_update_wf(pre, *store, i as int);
                store.lemma_extra_index_at(i as int);
            }
        },
        None => {
            let id = store.next_extra_id;
            let row = ExtraSongInfo {
                id,
                song_id,
                cover_url: match &info.cover_url {
                    Some(v) => Some(v.clone()),
                    None => None,
                },
                cover_url_small: match &info.cover_url_small {
                    Some(v) => Some(v.clone()),
                    None => None,
                },
                mbid: Some(info.mbid.clone()),
                musicbrainz_title: Some(info.musicbrainz_title.clone()),
                musicbrainz_artist: Some(info.musicbrainz_artist.clone()),
                musicbrainz_length: Some(info.musicbrainz_length),
                mistag_lock: false,
                aliases_artist: None,
                aliases_title: None,
            };
            let ghost pre = *store;
            let n = store.extra_infos.len();
            store.extra_infos.push(row);
            store.next_extra_id = id + 1;
            proof {
                extras_push_wf(pre, *store, song_id as int);
                store.lemma_extra_index_at(n as int);
            }
        },
    }
}

/// Replacing a metadata row in place, same id and song, keeps the store
/// well-formed.
proof fn extras_update_wf(pre: Store, cur: Store, i: int)
    requires
        pre.wf(),
        0 <= i < pre.extra_infos@.len(),
        cur.extra_infos@.len() == pre.extra_infos@.len(),
        forall|k: int|
            0 <= k < pre.extra_infos@.len() && k != i ==> cur.extra_infos@[k]
                == pre.extra_infos@[k],
        cur.extra_infos@[i].id == pre.extra_infos@[i].id,
        cur.extra_infos@[i].song_id == pre.extra_infos@[i].song_id,
        cur.players@ == pre.players@,
        cur.songs@ == pre.songs@,
        cur.scores@ == pre.scores@,
        cur.rivalries@ == pre.rivalries@,
        cur.shouts@ == pre.shouts@,
        cur.leaderboard == pre.leaderboard,
        cur.next_player_id == pre.next_player_id,
        cur.next_song_id == pre.next_song_id,
        cur.next_score_id == pre.next_score_id,
        cur.next_extra_id == pre.next_extra_id,
        cur.next_shout_id == pre.next_shout_id,
    ensures
        cur.wf(),
{
    assert(cur.extras_wf()) by {
        assert forall|a: int| 0 <= a < cur.extra_infos@.len() implies cur.has_song_id(
            (#[trigger] cur.extra_infos@[a]).song_id as int,
        ) by {
            assert(cur.extra_infos@[a].song_id == pre.extra_infos@[a].song_id);
            assert(pre.has_song_id(pre.extra_infos@[a].song_id as int));
            let v = choose|v: int|
                0 <= v < pre.songs@.len() && (#[trigger] pre.songs@[v]).id
                    == cur.extra_infos@[a].song_id;
            assert(cur.songs@[v].id == cur.extra_infos@[a].song_id);
        }
        assert forall|a: int, b: int|
            0 <= a < b < cur.extra_infos@.len() implies (#[trigger] cur.extra_infos@[a]).id != (
        #[trigger] cur.extra_infos@[b]).id && cur.extra_infos@[a].song_id
            != cur.extra_infos@[b].song_id by {
            assert(cur.extra_infos@[a].id == pre.extra_infos@[a].id);
            assert(cur.extra_infos@[b].id == pre.extra_infos@[b].id);
            assert(cur.extra_infos@[a].song_id == pre.extra_infos@[a].song_id);
            assert(cur.extra_infos@[b].song_id == pre.extra_infos@[b].song_id);
        }
    }
    store_untouched_tables_wf(pre, cur);
}

/// Appending a metadata row for a song that had none keeps the store
/// well-formed.
proof fn extras_push_wf(pre: Store, cur: Store, sid: int)
    requires
        pre.wf(),
        !pre.has_extra_for_song(sid),
        pre.has_song_id(sid),
        cur.extra_infos@.len() == pre.extra_infos@.len() + 1,
        forall|k: int|
            0 <= k < pre.extra_infos@.len() ==> cur.extra_infos@[k] == pre.extra_infos@[k],
        cur.extra_infos@.last().id == pre.next_extra_id,
        cur.extra_infos@.last().song_id == sid,
        cur.next_extra_id == pre.next_extra_id + 1,
        cur.players@ == pre.players@,
        cur.songs@ == pre.songs@,
        cur.scores@ == pre.scores@,
        cur.rivalries@ == pre.rivalries@,
        cur.shouts@ == pre.shouts@,
        cur.leaderboard == pre.leaderboard,
        cur.next_player_id == pre.next_player_id,
        cur.next_song_id == pre.next_song_id,
        cur.next_score_id == pre.next_score_id,
        cur.next_shout_id == pre.next_shout_id,
    ensures
        cur.wf(),
{
    let n = cur.extra_infos@.len() - 1;
    assert(cur.extras_wf()) by {
        assert forall|a: int, b: int|
            0 <= a < b < cur.extra_infos@.len() implies (#[trigger] cur.extra_infos@[a]).id != (
        #[trigger] cur.extra_infos@[b]).id && cur.extra_infos@[a].song_id
            != cur.extra_infos@[b].song_id by {
            if b == n {
                assert(pre.extra_infos@[a].id < pre.next_extra_id);
                assert(pre.extra_infos@[a].song_id != sid);
            }
        }
        assert forall|a: int| 0 <= a < cur.extra_infos@.len() implies cur.has_song_id(
            (#[trigger] cur.extra_infos@[a]).song_id as int,
        ) by {
            if a < n {
                assert(pre.has_song_id(pre.extra_infos@[a].song_id as int));
            } else {
                assert(pre.has_song_id(sid));
            }
            let v = choose|v: int|
                0 <= v < pre.songs@.len() && (#[trigger] pre.songs@[v]).id
                    == cur.extra_infos@[a].song_id;
            assert(cur.songs@[v].id == cur.extra_infos@[a].song_id);
        }
    }
    store_untouched_tables_wf(pre, cur);
}

/// The metadata, shout and rivalry invariants carry over between stores
/// that agree on those tables and the song and player tables.
pub(crate) proof fn store_untouched_extras_wf(pre: Store, cur: Store)
    requires
        pre.wf(),
        cur.players@ == pre.players@,
        cur.songs@ == pre.songs@,
        cur.extra_infos@ == pre.extra_infos@,
        cur.shouts@ == pre.shouts@,
        cur.rivalries@ == pre.rivalries@,
        cur.next_extra_id == pre.next_extra_id,
        cur.next_shout_id == pre.next_shout_id,
    ensures
        cur.extras_wf(),
        cur.shouts_wf(),
        cur.rivalries_wf(),
{
    assert(cur.extras_wf()) by {
        assert forall|a: int| 0 <= a < cur.extra_infos@.len() implies cur.has_song_id(
            (#[trigger] cur.extra_infos@[a]).song_id as int,
        ) by {
            assert(pre.has_song_id(pre.extra_infos@[a].song_id as int));
            let v = choose|v: int|
                0 <= v < pre.songs@.len() && (#[trigger] pre.songs@[v]).id
                    == cur.extra_infos@[a].song_id;
            assert(cur.songs@[v].id == cur.extra_infos@[a].song_id);
        }
    }
    assert(cur.shouts_wf()) by {
        assert forall|a: int| 0 <= a < cur.shouts@.len() implies cur.has_song_id(
            (#[trigger] cur.shouts@[a]).song_id as int,
        ) && cur.has_player_id(cur.shouts@[a].author_id as int) by {
            assert(pre.has_song_id(pre.shouts@[a].song_id as int));
            assert(pre.has_player_id(pre.shouts@[a].author_id as int));
            let v = choose|v: int|
                0 <= v < pre.songs@.len() && (#[trigger] pre.songs@[v]).id
                    == cur.shouts@[a].song_id;
            assert(cur.songs@[v].id == cur.shouts@[a].song_id);
            let w = choose|w: int|
                0 <= w < pre.players@.len() && (#[trigger] pre.players@[w]).id
                    == cur.shouts@[a].author_id;
            assert(cur.players@[w].id == cur.shouts@[a].author_id);
        }
    }
    assert(cur.rivalries_wf()) by {
        assert forall|a: int| 0 <= a < cur.rivalries@.len() implies cur.has_player_id(
            (#[trigger] cur.rivalries@[a]).challenger_id as int,
        ) && cur.has_player_id(cur.rivalries@[a].rival_id as int) by {
            assert(pre.has_player_id(pre.rivalries@[a].challenger_id as int));
            assert(pre.has_player_id(pre.rivalries@[a].rival_id as int));
            let w = choose|w: int|
                0 <= w < pre.players@.len() && (#[trigger] pre.players@[w]).id
                    == cur.rivalries@[a].challenger_id;
            assert(cur.players@[w].id == cur.rivalries@[a].challenger_id);
            let v = choose|v: int|
                0 <= v < pre.players@.len() && (#[trigger] pre.players@[v]).id
                    == cur.rivalries@[a].rival_id;
            assert(cur.players@[v].id == cur.rivalries@[a].rival_id);
        }
    }
}

/// The table-local invariants of the untouched tables carry over between
/// two stores that agree on them.
proof fn store_untouched_tables_wf(pre: Store, cur: Store)
    requires
        pre.wf(),
        cur.players@ == pre.players@,
        cur.songs@ == pre.songs@,
        cur.scores@ == pre.scores@,
        cur.rivalries@ == pre.rivalries@,
        cur.shouts@ == pre.shouts@,
        cur.leaderboard == pre.leaderboard,
        cur.next_player_id == pre.next_player_id,
        cur.next_song_id == pre.next_song_id,
        cur.next_score_id == pre.next_score_id,
        cur.next_shout_id == pre.next_shout_id,
    ensures
        cur.players_wf(),
        cur.songs_wf(),
        cur.scores_wf(),
        cur.rivalries_wf(),
        cur.shouts_wf(),
        cur.leaderboard_wf(),
{
    assert(cur.scores_wf()) by {
        assert forall|x: int| 0 <= x < cur.scores@.len() implies cur.has_player_id(
            (#[trigger] cur.scores@[x]).player_id as int,
        ) && cur.has_song_id(cur.scores@[x].song_id as int) by {
            assert(pre.has_player_id(pre.scores@[x].player_id as int));
            assert(pre.has_song_id(pre.scores@[x].song_id as int));
            let w = choose|w: int|
                0 <= w < pre.players@.len() && (#[trigger] pre.players@[w]).id
                    == cur.scores@[x].player_id;
            assert(cur.players@[w].id == cur.scores@[x].player_id);
            let v = choose|v: int|
                0 <= v < pre.songs@.len() && (#[trigger] pre.songs@[v]).id
                    == cur.scores@[x].song_id;
            assert(cur.songs@[v].id == cur.scores@[x].song_id);
        }
    }
    assert(cur.rivalries_wf()) by {
        assert forall|x: int| 0 <= x < cur.rivalries@.len() implies cur.has_player_id(
            (#[trigger] cur.rivalries@[x]).challenger_id as int,
        ) && cur.has_player_id(cur.rivalries@[x].rival_id as int) by {
            assert(pre.has_player_id(pre.rivalries@[x].challenger_id as int));
            assert(pre.has_player_id(pre.rivalries@[x].rival_id as int));
            let w = choose|w: int|
                0 <= w < pre.players@.len() && (#[trigger] pre.players@[w]).id
                    == cur.rivalries@[x].challenger_id;
            assert(cur.players@[w].id == cur.rivalries@[x].challenger_id);
            let v = choose|v: int|
                0 <= v < pre.players@.len() && (#[trigger] pre.players@[v]).id
                    == cur.rivalries@[x].rival_id;
            assert(cur.players@[v].id == cur.rivalries@[x].rival_id);
        }
    }
    assert(cur.shouts_wf()) by {
        assert forall|x: int| 0 <= x < cur.shouts@.len() implies cur.has_song_id(
            (#[trigger] cur.shouts@[x]).song_id as int,
        ) && cur.has_player_id(cur.shouts@[x].author_id as int) by {
            assert(pre.has_song_id(pre.shouts@[x].song_id as int));
            assert(pre.has_player_id(pre.shouts@[x].author_id as int));
            let v = choose|v: int|
                0 <= v < pre.songs@.len() && (#[trigger] pre.songs@[v]).id
                    == cur.shouts@[x].song_id;
            assert(cur.songs@[v].id == cur.shouts@[x].song_id);
            let w = choose|w: int|
                0 <= w < pre.players@.len() && (#[trigger] pre.players@[w]).id
                    == cur.shouts@[x].author_id;
            assert(cur.players@[w].id == cur.shouts@[x].author_id);
        }
    }
    assert(cur.leaderboard_wf()) by {
        assert forall|e: int|
            0 <= e < cur.leaderboard.entries@.len() implies cur.has_player_id(
            (#[trigger] cur.leaderboard.entries@[e]).player_id as int,
        ) by {
            assert(pre.has_player_id(pre.leaderboard.entries@[e].player_id as int));
            let w = choose|w: int|
                0 <= w < pre.players@.len() && (#[trigger] pre.players@[w]).id
                    == cur.leaderboard.entries@[e].player_id;
            assert(cur.players@[w].id == cur.leaderboard.entries@[e].player_id);
        }
        assert forall|x: int|
            0 <= x < cur.players@.len() implies cur.leaderboard.contains_player(
            (#[trigger] cur.players@[x]).id as int,
        ) by {
            assert(pre.leaderboard.contains_player(pre.players@[x].id as int));
        }
    }
}

impl Store {
    /// The earliest-submitted score row of the song among the first `n`
    /// rows, earliest row on a tie.
    pub open spec fn first_score_prefix(self, n: int, sid: int) -> Option<int>
        decreases n,
    {
        if n <= 0 {
            None
        } else {
            let prev = self.first_score_prefix(n - 1, sid);
            if self.scores@[n - 1].song_id == sid {
                match prev {
                    None => Some(n - 1),
                    Some(i) => if self.scores@[n - 1].submitted_at
                        < self.scores@[i].submitted_at {
                        Some(n - 1)
                    } else {
                        Some(i)
                    },
                }
            } else {
                prev
            }
        }
    }

    /// The song's first-ever score row, if it has any.
    pub open spec fn first_score_of(self, sid: int) -> Option<int> {
        self.first_score_prefix(self.scores@.len() as int, sid)
    }

    /// May this player edit the song's metadata: staff, or whoever set the
    /// song's first score?
    #[verifier::loop_isolation(false)]
    pub fn user_can_edit(&self, song_id: i32, player_id: i32) -> (r: bool)
        requires
            self.wf(),
            self.has_player_id(player_id as int),
        ensures
            r == ({
                ||| self.players@[self.player_index(player_id as int)].account_type
                    == crate::game_types::AccountType::Moderator
                ||| self.players@[self.player_index(player_id as int)].account_type
                    == crate::game_types::AccountType::Team
                ||| (match self.first_score_of(song_id as int) {
                    Some(i) => self.scores@[i].player_id == player_id,
                    None => false,
                })
            }),
    {
        let pidx = match self.find_player(player_id) {
            Some(i) => i,
            None => {
                proof {
                    assert(false);
                }
                0
            },
        };
        proof {
            self.lemma_player_index_at(pidx as int);
        }
        if self.players[pidx].account_type.is_staff() {
            return true;
        }
        let mut first: Option<usize> = None;
        let mut i: usize = 0;
        while i < self.scores.len()
            invariant
                i <= self.scores@.len(),
                match first {
                    Some(b) => b < i && self.first_score_prefix(i as int, song_id as int)
                        == Some(b as int),
                    None => self.first_score_prefix(i as int, song_id as int) is None,
                },
            decreases self.scores@.len() - i,
        {
            if self.scores[i].song_id == song_id {
                match first {
                    Some(b) => {
                        if self.scores[i].submitted_at < self.scores[b].submitted_at {
                            first = Some(i);
                        }
                    },
                    None => {
                        first = Some(i);
                    },
                }
            }
            i = i + 1;
        }
        match first {
            Some(b) => self.scores[b].player_id == player_id,
            None => false,
        }
    }
}

} // verus!
