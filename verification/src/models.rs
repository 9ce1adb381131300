//! The persisted entities: players, songs, scores, shouts, rivalries and the
//! satellite song metadata, modelled as plain records.
//!
//! Timestamps are UTC unix seconds; a Steam identity is its 64-bit number.

use vstd::prelude::*;
use crate::game_types::{AccountType, Character, League};
use crate::skill::{skill_points, sp_spec};

verus! {

/// A registered player, created on first Steam login and never deleted.
#[derive(Clone, Debug)]
pub struct Player {
    pub id: i32,
    pub username: String,
    pub steam_id: u64,
    /// The low 32 bits of `steam_id`, as the client's signed account number.
    pub steam_account_num: i32,
    pub location_id: i32,
    pub account_type: AccountType,
    pub joined_at: i64,
    pub avatar_url: String,
}

/// The public face of a player, as the JSON surface exposes it.
#[derive(Clone, Debug)]
pub struct PlayerPublic {
    pub id: i32,
    pub username: String,
    pub account_type: AccountType,
    pub joined_at: i64,
    pub avatar_url: String,
}

impl PlayerPublic {
    /// Projects a player onto its public fields.
    pub fn from_player(p: &Player) -> (r: PlayerPublic)
        ensures
            r.id == p.id,
            r.username@ == p.username@,
            r.account_type == p.account_type,
            r.joined_at == p.joined_at,
            r.avatar_url@ == p.avatar_url@,
    {
        PlayerPublic {
            id: p.id,
            username: p.username.clone(),
            account_type: p.account_type,
            joined_at: p.joined_at,
            avatar_url: p.avatar_url.clone(),
        }
    }
}

/// A canonical song row. `modifiers` is `None` when the title carried no
/// modifier tags; tag order matters.
#[derive(Clone, Debug)]
pub struct Song {
    pub id: i32,
    pub title: String,
    pub artist: String,
    pub created_at: i64,
    pub modifiers: Option<Vec<String>>,
}

/// Extra metadata attached one-to-one to a song, filled by the enricher or
/// by hand; aliases absorb the names of merged-away songs.
#[derive(Clone, Debug)]
pub struct ExtraSongInfo {
    pub id: i32,
    pub song_id: i32,
    pub cover_url: Option<String>,
    pub cover_url_small: Option<String>,
    pub mbid: Option<String>,
    pub musicbrainz_title: Option<String>,
    pub musicbrainz_artist: Option<String>,
    pub musicbrainz_length: Option<i32>,
    /// When set, the automatic lookup must not replace this row.
    pub mistag_lock: bool,
    pub aliases_artist: Option<Vec<String>>,
    pub aliases_title: Option<Vec<String>>,
}

/// Fields of a new extra-metadata row, before an id is assigned.
#[derive(Clone, Debug)]
pub struct NewExtraSongInfo {
    pub song_id: i32,
    pub cover_url: Option<String>,
    pub cover_url_small: Option<String>,
    pub mbid: Option<String>,
    pub musicbrainz_title: Option<String>,
    pub musicbrainz_artist: Option<String>,
    pub musicbrainz_length: Option<i32>,
    pub aliases_title: Option<Vec<String>>,
    pub aliases_artist: Option<Vec<String>>,
}

impl NewExtraSongInfo {
    pub fn new(
        song_id: i32,
        cover_url: Option<String>,
        cover_url_small: Option<String>,
        mbid: Option<String>,
        musicbrainz_title: Option<String>,
        musicbrainz_artist: Option<String>,
        musicbrainz_length: Option<i32>,
        aliases_title: Option<Vec<String>>,
        aliases_artist: Option<Vec<String>>,
    ) -> (r: NewExtraSongInfo)
        ensures
            r == (NewExtraSongInfo {
                song_id,
                cover_url,
                cover_url_small,
                mbid,
                musicbrainz_title,
                musicbrainz_artist,
                musicbrainz_length,
                aliases_title,
                aliases_artist,
            }),
    {
        NewExtraSongInfo {
            song_id,
            cover_url,
            cover_url_small,
            mbid,
            musicbrainz_title,
            musicbrainz_artist,
            musicbrainz_length,
            aliases_title,
            aliases_artist,
        }
    }
}

/// What a MusicBrainz lookup yields for a recording: the canonical naming,
/// the recording id, the length and the front covers.
#[derive(Clone, Debug)]
pub struct MusicBrainzInfo {
    pub cover_url: Option<String>,
    pub cover_url_small: Option<String>,
    pub mbid: String,
    pub musicbrainz_title: String,
    pub musicbrainz_artist: String,
    pub musicbrainz_length: i32,
}

/// A player's personal best on a song in one league. `play_count` counts all
/// submissions, improving or not.
#[derive(Clone, Debug)]
pub struct Score {
    pub id: i32,
    pub song_id: i32,
    pub player_id: i32,
    pub league: League,
    pub submitted_at: i64,
    pub play_count: i32,
    pub score: i32,
    pub track_shape: Vec<i32>,
    pub xstats: Vec<i32>,
    pub density: i32,
    pub vehicle: Character,
    pub feats: Vec<String>,
    /// In centiseconds.
    pub song_length: i32,
    pub gold_threshold: i32,
    pub iss: i32,
    pub isj: i32,
}

impl Score {
    /// The skill points this personal best contributes to the leaderboard.
    pub fn get_skill_points(&self) -> (r: i32)
        ensures
            r as int == sp_spec(self.score as int, self.gold_threshold as int, self.league),
    {
        skill_points(self.score, self.gold_threshold, self.league)
    }
}

/// A submitted ride, before it is reconciled with the stored personal best.
#[derive(Clone, Debug)]
pub struct NewScore {
    pub player_id: i32,
    pub song_id: i32,
    pub league: League,
    pub score: i32,
    pub track_shape: Vec<i32>,
    pub xstats: Vec<i32>,
    pub density: i32,
    pub vehicle: Character,
    pub feats: Vec<String>,
    pub song_length: i32,
    pub gold_threshold: i32,
    pub iss: i32,
    pub isj: i32,
}

impl NewScore {
    pub fn new(
        player_id: i32,
        song_id: i32,
        league: League,
        score: i32,
        track_shape: Vec<i32>,
        xstats: Vec<i32>,
        density: i32,
        vehicle: Character,
        feats: Vec<String>,
        song_length: i32,
        gold_threshold: i32,
        iss: i32,
        isj_value: i32,
    ) -> (r: NewScore)
        ensures
            r == (NewScore {
                player_id,
                song_id,
                league,
                score,
                track_shape,
                xstats,
                density,
                vehicle,
                feats,
                song_length,
                gold_threshold,
                iss,
                isj: isj_value,
            }),
    {
        NewScore {
            player_id,
            song_id,
            league,
            score,
            track_shape,
            xstats,
            density,
            vehicle,
            feats,
            song_length,
            gold_threshold,
            iss,
            isj: isj_value,
        }
    }

    /// The skill points this submission would earn.
    pub fn submitted_skill_points(&self) -> (r: i32)
        ensures
            r as int == sp_spec(self.score as int, self.gold_threshold as int, self.league),
    {
        skill_points(self.score, self.gold_threshold, self.league)
    }
}

/// A one-directional rivalry; it is mutual when the reverse pair also exists.
#[derive(Clone, Debug)]
pub struct Rivalry {
    pub challenger_id: i32,
    pub rival_id: i32,
    pub established_at: i64,
}

/// A rivalry's fields before the timestamp is assigned.
#[derive(Clone, Copy, Debug, PartialEq, Eq, Structural)]
pub struct NewRivalry {
    pub challenger_id: i32,
    pub rival_id: i32,
}

impl NewRivalry {
    pub fn new(challenger_id: i32, rival_id: i32) -> (r: NewRivalry)
        ensures
            r.challenger_id == challenger_id,
            r.rival_id == rival_id,
    {
        NewRivalry { challenger_id, rival_id }
    }
}

/// A rivalry as shown to the web UI: when it was made, and the other side.
#[derive(Clone, Debug)]
pub struct RivalryView {
    pub established_at: i64,
    pub player: PlayerPublic,
}

/// A comment a player left on a song.
#[derive(Clone, Debug)]
pub struct Shout {
    pub id: i32,
    pub song_id: i32,
    pub author_id: i32,
    pub posted_at: i64,
    pub content: String,
}

/// A shout's fields before id and timestamp are assigned.
#[derive(Clone, Debug)]
pub struct NewShout {
    pub song_id: i32,
    pub author_id: i32,
    pub content: String,
}

impl NewShout {
    pub fn new(song_id: i32, author_id: i32, content: String) -> (r: NewShout)
        ensures
            r.song_id == song_id,
            r.author_id == author_id,
            r.content@ == content@,
    {
        NewShout { song_id, author_id, content }
    }
}

/// A song's fields before an id is assigned: the bare title, the artist and
/// the parsed modifier tags.
#[derive(Clone, Debug)]
pub struct NewSong {
    pub title: String,
    pub artist: String,
    pub modifiers: Option<Vec<String>>,
}

impl NewSong {
    pub fn new(title: String, artist: String, modifiers: Option<Vec<String>>) -> (r: NewSong)
        ensures
            r.title@ == title@,
            r.artist@ == artist@,
            r.modifiers == modifiers,
    {
        NewSong { title, artist, modifiers }
    }
}

/// A player's fields as a Steam login supplies them.
#[derive(Clone, Debug)]
pub struct NewPlayer {
    pub username: String,
    pub steam_id: u64,
    pub steam_account_num: i32,
    pub avatar_url: String,
}

impl NewPlayer {
    pub fn new(username: String, steam_id: u64, steam_account_num: i32, avatar_url: String) -> (r:
        NewPlayer)
        ensures
            r.username@ == username@,
            r.steam_id == steam_id,
            r.steam_account_num == steam_account_num,
            r.avatar_url@ == avatar_url@,
    {
        NewPlayer { username, steam_id, steam_account_num, avatar_url }
    }
}

/// A player's most-used character among their personal bests.
#[derive(Clone, Copy, Debug, PartialEq, Eq, Structural)]
pub struct FavoriteCharacter {
    pub character: Character,
    pub times_used: i64,
}

} // verus!
