//! The song-identity resolver.
//!
//! A song is looked up by its bare title and artist — each side also
//! matching the canonical MusicBrainz naming case-insensitively or a stored
//! alias — with the parsed modifier tags compared exactly (no tags and an
//! empty tag list are the same thing). When a recording id is supplied, an
//! exact id-and-modifiers match takes precedence. When several rows match,
//! the lowest song id wins; when none does, a row is created.

use vstd::prelude::*;
use crate::models::{ExtraSongInfo, NewSong, Song};
use crate::store::Store;

verus! {

/// What `str::to_lowercase` returns for these characters: the Unicode
/// lowercase mapping, a function of the characters alone.
pub uninterp spec fn lower_of(s: Seq<char>) -> Seq<char>;

/// Relies on `str::to_lowercase`: the result depends on the characters
/// alone.
#[verifier::external_body]
pub fn lowercase(s: &str) -> (r: String)
    ensures
        r@ == lower_of(s@),
{
    s.to_lowercase()
}

/// The modifier list a song row carries; a row without tags carries the
/// empty list.
pub open spec fn norm_mods(m: Option<Vec<String>>) -> Seq<Seq<char>> {
    match m {
        None => Seq::empty(),
        Some(v) => v.deep_view(),
    }
}

/// Does this metadata row tie the title `t` to its song: the canonical
/// title matches case-insensitively, or `t` is a stored title alias?
pub open spec fn extra_title_match(e: ExtraSongInfo, t: Seq<char>) -> bool {
    ||| (match e.musicbrainz_title {
        Some(mt) => lower_of(mt@) == lower_of(t),
        None => false,
    })
    ||| (match e.aliases_title {
        Some(al) => exists|k: int| 0 <= k < al@.len() && (#[trigger] al@[k])@ == t,
        None => false,
    })
}

/// The artist-side analogue of `extra_title_match`.
pub open spec fn extra_artist_match(e: ExtraSongInfo, a: Seq<char>) -> bool {
    ||| (match e.musicbrainz_artist {
        Some(ma) => lower_of(ma@) == lower_of(a),
        None => false,
    })
    ||| (match e.aliases_artist {
        Some(al) => exists|k: int| 0 <= k < al@.len() && (#[trigger] al@[k])@ == a,
        None => false,
    })
}

impl Store {
    pub open spec fn song_title_match(self, i: int, t: Seq<char>) -> bool {
        self.songs@[i].title@ == t || exists|e: int|
            0 <= e < self.extra_infos@.len() && (#[trigger] self.extra_infos@[e]).song_id
                == self.songs@[i].id && extra_title_match(self.extra_infos@[e], t)
    }

    pub open spec fn song_artist_match(self, i: int, a: Seq<char>) -> bool {
        self.songs@[i].artist@ == a || exists|e: int|
            0 <= e < self.extra_infos@.len() && (#[trigger] self.extra_infos@[e]).song_id
                == self.songs@[i].id && extra_artist_match(self.extra_infos@[e], a)
    }

    /// Does row `i` answer a plain `(title, artist, modifiers)` lookup?
    pub open spec fn song_matches_plain(self, i: int, t: Seq<char>, a: Seq<char>, mods: Seq<
        Seq<char>,
    >) -> bool {
        &&& 0 <= i < self.songs@.len()
        &&& self.song_title_match(i, t)
        &&& self.song_artist_match(i, a)
        &&& norm_mods(self.songs@[i].modifiers) == mods
    }

    /// Does row `i` answer a recording-id lookup: same id, same modifiers?
    pub open spec fn song_matches_mbid(self, i: int, m: Seq<char>, mods: Seq<Seq<char>>) -> bool {
        &&& 0 <= i < self.songs@.len()
        &&& exists|e: int|
            0 <= e < self.extra_infos@.len() && (#[trigger] self.extra_infos@[e]).song_id
                == self.songs@[i].id && (match self.extra_infos@[e].mbid {
                Some(x) => x@ == m,
                None => false,
            })
        &&& norm_mods(self.songs@[i].modifiers) == mods
    }
}

/// How one resolver call moves the store: either some row already matched —
/// the store is untouched and the lowest matching id is returned — or no
/// row matched and exactly one new song row is appended.
pub open spec fn resolve_effect(pre: Store, post: Store, t: Seq<char>, a: Seq<char>, mods: Seq<
    Seq<char>,
>, sid: int, created: bool) -> bool {
    &&& post.players@ == pre.players@
    &&& post.extra_infos@ == pre.extra_infos@
    &&& post.scores@ == pre.scores@
    &&& post.rivalries@ == pre.rivalries@
    &&& post.shouts@ == pre.shouts@
    &&& post.leaderboard == pre.leaderboard
    &&& post.next_player_id == pre.next_player_id
    &&& post.next_score_id == pre.next_score_id
    &&& post.next_extra_id == pre.next_extra_id
    &&& post.next_shout_id == pre.next_shout_id
    &&& if exists|i: int| pre.song_matches_plain(i, t, a, mods) {
        &&& !created
        &&& post.songs@ == pre.songs@
        &&& post.next_song_id == pre.next_song_id
        &&& exists|i: int|
            #[trigger] pre.song_matches_plain(i, t, a, mods) && pre.songs@[i].id == sid
        &&& forall|j: int|
            #[trigger] pre.song_matches_plain(j, t, a, mods) ==> sid <= pre.songs@[j].id
    } else {
        &&& created
        &&& post.songs@.len() == pre.songs@.len() + 1
        &&& forall|k: int| 0 <= k < pre.songs@.len() ==> post.songs@[k] == pre.songs@[k]
        &&& post.next_song_id == pre.next_song_id + 1
        &&& sid == pre.next_song_id
        &&& ({
            let s = post.songs@[post.songs@.len() - 1];
            &&& s.id == sid
            &&& s.title@ == t
            &&& s.artist@ == a
            &&& norm_mods(s.modifiers) == mods
        })
    }
}

/// Compares two string vectors by value.
#[verifier::loop_isolation(false)]
pub fn string_vecs_equal(a: &Vec<String>, b: &Vec<String>) -> (r: bool)
    ensures
        r == (a.deep_view() == b.deep_view()),
{
    if a.len() != b.len() {
        proof {
            assert(a.deep_view().len() != b.deep_view().len());
        }
        return false;
    }
    let mut i: usize = 0;
    while i < a.len()
        invariant
            i <= a@.len(),
            a@.len() == b@.len(),
            forall|j: int| 0 <= j < i ==> a.deep_view()[j] == b.deep_view()[j],
        decreases a@.len() - i,
    {
        if !(a[i] == b[i]) {
            proof {
                assert(a.deep_view()[i as int] == a@[i as int]@);
                assert(b.deep_view()[i as int] == b@[i as int]@);
            }
            return false;
        }
        proof {
            assert(a.deep_view()[i as int] =~= a@[i as int]@);
            assert(b.deep_view()[i as int] =~= b@[i as int]@);
        }
        i = i + 1;
    }
    proof {
        assert(a.deep_view() =~~= b.deep_view());
    }
    true
}

/// Do a row's stored tags equal these parsed tags, a missing list equalling
/// the empty list?
fn mods_equal(stored: &Option<Vec<String>>, mods: &Option<Vec<String>>) -> (r: bool)
    ensures
        r == (norm_mods(*stored) == norm_mods(*mods)),
{
    match (stored, mods) {
        (None, None) => true,
        (None, Some(v)) => {
            proof {
                if v@.len() == 0 {
                    assert(norm_mods(*mods) =~= Seq::<Seq<char>>::empty());
                } else {
                    assert(norm_mods(*mods).len() == v@.len());
                }
            }
            v.len() == 0
        },
        (Some(v), None) => {
            proof {
                if v@.len() == 0 {
                    assert(norm_mods(*stored) =~= Seq::<Seq<char>>::empty());
                } else {
                    assert(norm_mods(*stored).len() == v@.len());
                }
            }
            v.len() == 0
        },
        (Some(x), Some(y)) => string_vecs_equal(x, y),
    }
}

/// Does any stored alias equal the lookup string?
#[verifier::loop_isolation(false)]
fn alias_hit(al: &Vec<String>, t: &String) -> (r: bool)
    ensures
        r == exists|k: int| 0 <= k < al@.len() && (#[trigger] al@[k])@ == t@,
{
    let mut k: usize = 0;
    while k < al.len()
        invariant
            k <= al@.len(),
            forall|j: int| 0 <= j < k ==> (#[trigger] al@[j])@ != t@,
        decreases al@.len() - k,
    {
        if al[k] == *t {
            return true;
        }
        k = k + 1;
    }
    false
}

impl Store {
    /// Does row `i` answer the plain lookup? `t_lower` and `a_lower` must be
    /// the lowercase forms of `t` and `a`.
    #[verifier::loop_isolation(false)]
    fn plain_match_at(
        &self,
        i: usize,
        t: &String,
        t_lower: &String,
        a: &String,
        a_lower: &String,
        mods: &Option<Vec<String>>,
    ) -> (r: bool)
        requires
            self.extras_wf(),
            i < self.songs@.len(),
            t_lower@ == lower_of(t@),
            a_lower@ == lower_of(a@),
        ensures
            r == self.song_matches_plain(i as int, t@, a@, norm_mods(*mods)),
    {
        if !mods_equal(&self.songs[i].modifiers, mods) {
            return false;
        }
        let extra = self.find_extra_for_song(self.songs[i].id);
        let title_ok: bool = if self.songs[i].title == *t {
            true
        } else {
            match extra {
                Some(e) => {
                    let row = &self.extra_infos[e];
                    let mb_hit: bool = match &row.musicbrainz_title {
                        Some(mt) => {
                            let lowered = lowercase(mt.as_str());
                            lowered == *t_lower
                        },
                        None => false,
                    };
                    let alias_ok: bool = if mb_hit {
                        true
                    } else {
                        match &row.aliases_title {
                            Some(al) => alias_hit(al, t),
                            None => false,
                        }
                    };
                    proof {
                        if mb_hit || alias_ok {
                            assert(extra_title_match(self.extra_infos@[e as int], t@));
                        }
                    }
                    mb_hit || alias_ok
                },
                None => false,
            }
        };
        proof {
            if !title_ok {
                assert forall|e2: int|
                    0 <= e2 < self.extra_infos@.len() && (
                #[trigger] self.extra_infos@[e2]).song_id == self.songs@[i as int].id implies !extra_title_match(
                    self.extra_infos@[e2],
                    t@,
                ) by {
                    if let Some(e) = extra {
                        if e2 != e as int {
                            assert(self.extra_infos@[e as int].song_id
                                == self.songs@[i as int].id);
                        }
                    }
                }
            }
        }
        if !title_ok {
            return false;
        }
        let artist_ok: bool = if self.songs[i].artist == *a {
            true
        } else {
            match extra {
                Some(e) => {
                    let row = &self.extra_infos[e];
                    let mb_hit: bool = match &row.musicbrainz_artist {
                        Some(ma) => {
                            let lowered = lowercase(ma.as_str());
                            lowered == *a_lower
                        },
                        None => false,
                    };
                    let alias_ok: bool = if mb_hit {
                        true
                    } else {
                        match &row.aliases_artist {
                            Some(al) => alias_hit(al, a),
                            None => false,
                        }
                    };
                    proof {
                        if mb_hit || alias_ok {
                            assert(extra_artist_match(self.extra_infos@[e as int], a@));
                        }
                    }
                    mb_hit || alias_ok
                },
                None => false,
            }
        };
        proof {
            if !artist_ok {
                assert forall|e2: int|
                    0 <= e2 < self.extra_infos@.len() && (
                #[trigger] self.extra_infos@[e2]).song_id == self.songs@[i as int].id implies !extra_artist_match(
                    self.extra_infos@[e2],
                    a@,
                ) by {
                    if let Some(e) = extra {
                        if e2 != e as int {
                            assert(self.extra_infos@[e as int].song_id
                                == self.songs@[i as int].id);
                        }
                    }
                }
            }
        }
        artist_ok
    }
}

impl NewSong {
    /// Finds the song this bare title, artist and tag list name — the
    /// lowest-id match — or creates it. Returns the song id and whether a
    /// row was created.
    #[verifier::loop_isolation(false)]
    pub fn find_or_create(&self, store: &mut Store, now: i64) -> (r: (i32, bool))
        requires
            old(store).wf(),
            old(store).next_song_id < i32::MAX,
        ensures
            final(store).wf(),
            resolve_effect(
                *old(store),
                *final(store),
                self.title@,
                self.artist@,
                norm_mods(self.modifiers),
                r.0 as int,
                r.1,
            ),
    {
        let ghost t = self.title@;
        let ghost a = self.artist@;
        let ghost mods = norm_mods(self.modifiers);
        let t_lower = lowercase(self.title.as_str());
        let a_lower = lowercase(self.artist.as_str());
        let mut best: Option<i32> = None;
        let mut i: usize = 0;
        while i < store.songs.len()
            invariant
                i <= store.songs@.len(),
                match best {
                    Some(b) => (exists|j: int|
                        0 <= j < i && #[trigger] store.song_matches_plain(j, t, a, mods)
                            && store.songs@[j].id == b) && forall|j: int|
                        0 <= j < i && #[trigger] store.song_matches_plain(j, t, a, mods)
                            ==> b <= store.songs@[j].id,
                    None => forall|j: int|
                        0 <= j < i ==> !(#[trigger] store.song_matches_plain(j, t, a, mods)),
                },
            decreases store.songs@.len() - i,
        {
            if store.plain_match_at(i, &self.title, &t_lower, &self.artist, &a_lower, &self.modifiers) {
                match best {
                    Some(b) => {
                        if store.songs[i].id < b {
                            best = Some(store.songs[i].id);
                        }
                    },
                    None => {
                        best = Some(store.songs[i].id);
                    },
                }
            }
            i = i + 1;
        }
        match best {
            Some(b) => {
                proof {
                    assert(exists|j: int| old(store).song_matches_plain(j, t, a, mods));
                }
                (b, false)
            },
            None => {
                let id = store.next_song_id;
                let row = Song {
                    id,
                    title: self.title.clone(),
                    artist: self.artist.clone(),
                    created_at: now,
                    modifiers: match &self.modifiers {
                        Some(v) => Some(crate::engine::clone_strings(v)),
                        None => None,
                    },
                };
                proof {
                    assert(norm_mods(row.modifiers) =~~= mods);
                }
                let ghost pre = *store;
                store.songs.push(row);
                store.next_song_id = id + 1;
                proof {
                    assert(forall|j: int|
                        !(#[trigger] pre.song_matches_plain(j, t, a, mods)));
                    assert(store.songs_wf()) by {
                        assert forall|x: int, y: int|
                            0 <= x < y < store.songs@.len() implies (
                        #[trigger] store.songs@[x]).id != (#[trigger] store.songs@[y]).id by {
                            if y == store.songs@.len() - 1 {
                                assert(pre.songs@[x].id < pre.next_song_id);
                            }
                        }
                    }
                    assert(store.scores_wf()) by {
                        assert forall|x: int| 0 <= x < store.scores@.len() implies store.has_song_id(
                            (#[trigger] store.scores@[x]).song_id as int,
                        ) && store.has_player_id(store.scores@[x].player_id as int) by {
                            assert(pre.has_song_id(pre.scores@[x].song_id as int));
                            assert(pre.has_player_id(pre.scores@[x].player_id as int));
                            let v = choose|v: int|
                                0 <= v < pre.songs@.len() && (#[trigger] pre.songs@[v]).id
                                    == store.scores@[x].song_id;
                            assert(store.songs@[v].id == store.scores@[x].song_id);
                            let w = choose|w: int|
                                0 <= w < pre.players@.len() && (#[trigger] pre.players@[w]).id
                                    == store.scores@[x].player_id;
                            assert(store.players@[w].id == store.scores@[x].player_id);
                        }
                    }
                    assert(store.extras_wf()) by {
                        assert forall|x: int|
                            0 <= x < store.extra_infos@.len() implies store.has_song_id(
                            (#[trigger] store.extra_infos@[x]).song_id as int,
                        ) by {
                            assert(pre.has_song_id(pre.extra_infos@[x].song_id as int));
                            let v = choose|v: int|
                                0 <= v < pre.songs@.len() && (#[trigger] pre.songs@[v]).id
                                    == store.extra_infos@[x].song_id;
                            assert(store.songs@[v].id == store.extra_infos@[x].song_id);
                        }
                    }
                    assert(store.shouts_wf()) by {
                        assert forall|x: int| 0 <= x < store.shouts@.len() implies store.has_song_id(
                            (#[trigger] store.shouts@[x]).song_id as int,
                        ) && store.has_player_id(store.shouts@[x].author_id as int) by {
                            assert(pre.has_song_id(pre.shouts@[x].song_id as int));
                            assert(pre.has_player_id(pre.shouts@[x].author_id as int));
                            let v = choose|v: int|
                                0 <= v < pre.songs@.len() && (#[trigger] pre.songs@[v]).id
                                    == store.shouts@[x].song_id;
                            assert(store.songs@[v].id == store.shouts@[x].song_id);
                            let w = choose|w: int|
                                0 <= w < pre.players@.len() && (#[trigger] pre.players@[w]).id
                                    == store.shouts@[x].author_id;
                            assert(store.players@[w].id == store.shouts@[x].author_id);
                        }
                    }
                    assert(store.rivalries_wf()) by {
                        assert forall|x: int|
                            0 <= x < store.rivalries@.len() implies store.has_player_id(
                            (#[trigger] store.rivalries@[x]).challenger_id as int,
                        ) && store.has_player_id(store.rivalries@[x].rival_id as int) by {
                            assert(pre.has_player_id(pre.rivalries@[x].challenger_id as int));
                            assert(pre.has_player_id(pre.rivalries@[x].rival_id as int));
                            let w = choose|w: int|
                                0 <= w < pre.players@.len() && (#[trigger] pre.players@[w]).id
                                    == store.rivalries@[x].challenger_id;
                            assert(store.players@[w].id == store.rivalries@[x].challenger_id);
                            let v = choose|v: int|
                                0 <= v < pre.players@.len() && (#[trigger] pre.players@[v]).id
                                    == store.rivalries@[x].rival_id;
                            assert(store.players@[v].id == store.rivalries@[x].rival_id);
                        }
                    }
                    assert(store.leaderboard_wf()) by {
                        assert forall|e: int|
                            0 <= e < store.leaderboard.entries@.len() implies store.has_player_id(
                            (#[trigger] store.leaderboard.entries@[e]).player_id as int,
                        ) by {
                            assert(pre.has_player_id(
                                pre.leaderboard.entries@[e].player_id as int,
                            ));
                            let w = choose|w: int|
                                0 <= w < pre.players@.len() && (#[trigger] pre.players@[w]).id
                                    == store.leaderboard.entries@[e].player_id;
                            assert(store.players@[w].id
                                == store.leaderboard.entries@[e].player_id);
                        }
                        assert forall|x: int|
                            0 <= x < store.players@.len() implies store.leaderboard.contains_player(
                            (#[trigger] store.players@[x]).id as int,
                        ) by {
                            assert(pre.leaderboard.contains_player(pre.players@[x].id as int));
                        }
                    }
                }
                (id, true)
            },
        }
    }
}

/// Song resolver idempotence: after one resolver call, the same lookup
/// matches exactly what it returned, so a second identical call returns the
/// same song id and leaves the store untouched.
pub proof fn lemma_resolver_idempotent(
    pre: Store,
    post: Store,
    t: Seq<char>,
    a: Seq<char>,
    mods: Seq<Seq<char>>,
    sid: int,
    created: bool,
)
    requires
        pre.songs_wf(),
        resolve_effect(pre, post, t, a, mods, sid, created),
    ensures
        exists|i: int| post.song_matches_plain(i, t, a, mods),
        resolve_effect(post, post, t, a, mods, sid, false),
{
    if exists|i: int| pre.song_matches_plain(i, t, a, mods) {
        let i = choose|i: int| #[trigger] pre.song_matches_plain(i, t, a, mods);
        assert(post.song_matches_plain(i, t, a, mods)) by {
            lemma_match_transfers(pre, post, i, t, a, mods);
        }
        assert forall|j: int| #[trigger] post.song_matches_plain(j, t, a, mods) implies sid
            <= post.songs@[j].id by {
            lemma_match_transfers(post, pre, j, t, a, mods);
        }
        let w = choose|w: int|
            #[trigger] pre.song_matches_plain(w, t, a, mods) && pre.songs@[w].id == sid;
        lemma_match_transfers(pre, post, w, t, a, mods);
        assert(post.song_matches_plain(w, t, a, mods) && post.songs@[w].id == sid);
    } else {
        let n = post.songs@.len() - 1;
        assert(post.song_matches_plain(n, t, a, mods)) by {
            assert(post.songs@[n].title@ == t);
            assert(post.songs@[n].artist@ == a);
        }
        assert forall|j: int| #[trigger] post.song_matches_plain(j, t, a, mods) implies sid
            <= post.songs@[j].id by {
            if j < n {
                assert(post.songs@[j] == pre.songs@[j]);
                lemma_match_transfers(post, pre, j, t, a, mods);
                assert(pre.song_matches_plain(j, t, a, mods));
            }
        }
        assert(post.song_matches_plain(n, t, a, mods) && post.songs@[n].id == sid);
    }
}

/// A plain match depends only on the song row and the metadata table; it
/// carries over between stores that agree on them.
proof fn lemma_match_transfers(x: Store, y: Store, i: int, t: Seq<char>, a: Seq<char>, mods: Seq<
    Seq<char>,
>)
    requires
        x.song_matches_plain(i, t, a, mods),
        0 <= i < y.songs@.len(),
        y.songs@[i] == x.songs@[i],
        y.extra_infos@ == x.extra_infos@,
    ensures
        y.song_matches_plain(i, t, a, mods),
{
    if x.songs@[i].title@ != t {
        let e = choose|e: int|
            0 <= e < x.extra_infos@.len() && (#[trigger] x.extra_infos@[e]).song_id
                == x.songs@[i].id && extra_title_match(x.extra_infos@[e], t);
        assert(0 <= e < y.extra_infos@.len() && y.extra_infos@[e].song_id == y.songs@[i].id
            && extra_title_match(y.extra_infos@[e], t));
    }
    if x.songs@[i].artist@ != a {
        let e = choose|e: int|
            0 <= e < x.extra_infos@.len() && (#[trigger] x.extra_infos@[e]).song_id
                == x.songs@[i].id && extra_artist_match(x.extra_infos@[e], a);
        assert(0 <= e < y.extra_infos@.len() && y.extra_infos@[e].song_id == y.songs@[i].id
            && extra_artist_match(y.extra_infos@[e], a));
    }
}

/// What a song-id lookup returns: the id, whether a row was created, and
/// whether a detached recording-id metadata lookup should follow.
pub struct FetchSongIdOutcome {
    pub song_id: i32,
    pub created: bool,
    pub enrich_by_mbid: bool,
}

impl Store {
    /// Does row `i` answer the recording-id lookup? Exec mirror of
    /// `song_matches_mbid`.
    #[verifier::loop_isolation(false)]
    fn mbid_match_at(&self, i: usize, m: &String, mods: &Option<Vec<String>>) -> (r: bool)
        requires
            self.extras_wf(),
            i < self.songs@.len(),
        ensures
            r == self.song_matches_mbid(i as int, m@, norm_mods(*mods)),
    {
        if !mods_equal(&self.songs[i].modifiers, mods) {
            return false;
        }
        let extra = self.find_extra_for_song(self.songs[i].id);
        let hit: bool = match extra {
            Some(e) => match &self.extra_infos[e].mbid {
                Some(x) => *x == *m,
                None => false,
            },
            None => false,
        };
        proof {
            if !hit {
                assert forall|e2: int|
                    0 <= e2 < self.extra_infos@.len() && (
                #[trigger] self.extra_infos@[e2]).song_id == self.songs@[i as int].id implies !(
                match self.extra_infos@[e2].mbid {
                    Some(x) => x@ == m@,
                    None => false,
                }) by {
                    if let Some(e) = extra {
                        if e2 != e as int {
                            assert(self.extra_infos@[e as int].song_id
                                == self.songs@[i as int].id);
                        }
                    }
                }
            }
        }
        hit
    }
}

/// Resolves a song-id request: the title's modifier tags are parsed off,
/// and the song is found by recording id — when one is supplied — or by the
/// bare title and artist, creating the row if nothing matches. A fresh row
/// made under a recording id asks for a detached metadata lookup.
#[verifier::loop_isolation(false)]
pub fn fetch_song_id(
    store: &mut Store,
    title_raw: &str,
    artist: &str,
    mbid: &Option<String>,
    now: i64,
) -> (r: FetchSongIdOutcome)
    requires
        old(store).wf(),
        old(store).next_song_id < i32::MAX,
    ensures
        final(store).wf(),
        ({
            let mods = crate::modifiers::parsed_mods(title_raw@);
            let bare = crate::modifiers::bare_title(title_raw@);
            match *mbid {
                Some(m) => {
                    if exists|i: int| old(store).song_matches_mbid(i, m@, mods) {
                        &&& *final(store) == *old(store)
                        &&& !r.created
                        &&& !r.enrich_by_mbid
                        &&& exists|i: int|
                            #[trigger] old(store).song_matches_mbid(i, m@, mods)
                                && old(store).songs@[i].id == r.song_id
                        &&& forall|j: int|
                            #[trigger] old(store).song_matches_mbid(j, m@, mods)
                                ==> r.song_id <= old(store).songs@[j].id
                    } else {
                        &&& resolve_effect(
                            *old(store),
                            *final(store),
                            bare,
                            artist@,
                            mods,
                            r.song_id as int,
                            r.created,
                        )
                        &&& r.enrich_by_mbid
                    }
                },
                None => {
                    &&& resolve_effect(
                        *old(store),
                        *final(store),
                        bare,
                        artist@,
                        mods,
                        r.song_id as int,
                        r.created,
                    )
                    &&& !r.enrich_by_mbid
                },
            }
        }),
{
    let parsed = crate::modifiers::parse_from_title(title_raw);
    let bare = crate::modifiers::remove_from_title(title_raw);
    let ghost mods = crate::modifiers::parsed_mods(title_raw@);
    proof {
        assert(norm_mods(parsed) =~~= mods);
    }
    match mbid {
        Some(m) => {
            let mut best: Option<i32> = None;
            let mut i: usize = 0;
            while i < store.songs.len()
                invariant
                    i <= store.songs@.len(),
                    match best {
                        Some(b) => (exists|j: int|
                            0 <= j < i && #[trigger] store.song_matches_mbid(j, m@, mods)
                                && store.songs@[j].id == b) && forall|j: int|
                            0 <= j < i && #[trigger] store.song_matches_mbid(j, m@, mods)
                                ==> b <= store.songs@[j].id,
                        None => forall|j: int|
                            0 <= j < i ==> !(#[trigger] store.song_matches_mbid(j, m@, mods)),
                    },
                decreases store.songs@.len() - i,
            {
                if store.mbid_match_at(i, m, &parsed) {
                    match best {
                        Some(b) => {
                            if store.songs[i].id < b {
                                best = Some(store.songs[i].id);
                            }
                        },
                        None => {
                            best = Some(store.songs[i].id);
                        },
                    }
                }
                i = i + 1;
            }
            match best {
                Some(b) => {
                    proof {
                        assert(exists|j: int| old(store).song_matches_mbid(j, m@, mods));
                    }
                    FetchSongIdOutcome { song_id: b, created: false, enrich_by_mbid: false }
                },
                None => {
                    let ns = NewSong::new(bare, artist.to_owned(), parsed);
                    let (sid, created) = ns.find_or_create(store, now);
                    FetchSongIdOutcome { song_id: sid, created, enrich_by_mbid: true }
                },
            }
        },
        None => {
            let ns = NewSong::new(bare, artist.to_owned(), parsed);
            let (sid, created) = ns.find_or_create(store, now);
            FetchSongIdOutcome { song_id: sid, created, enrich_by_mbid: false }
        },
    }
}

} // verus!
