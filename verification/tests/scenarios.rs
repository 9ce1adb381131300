use wavebreaker::game_types::{Character, League};
use wavebreaker::engine::{calc_skill_points, delete_score, refresh_skill_points};
use wavebreaker::gameplay::{fetch_track_shape, send_ride, SendRideError};
use wavebreaker::metadata::apply_musicbrainz;
use wavebreaker::models::{MusicBrainzInfo, NewExtraSongInfo, NewPlayer, NewShout, NewSong};
use wavebreaker::resolver::fetch_song_id;
use wavebreaker::shouts::{delete_shout, shouts_response, DeleteShoutError};
use wavebreaker::store::Store;
use wavebreaker::users::sync_friends;
use wavebreaker::wire::send_ride_response;

fn login(store: &mut Store, name: &str, steam_id: u64, num: i32, t: i64) -> i32 {
    let idx = NewPlayer::new(name.to_string(), steam_id, num, "http://avatar".to_string())
        .create_or_update(store, t);
    store.players[idx].id
}

fn points(store: &Store, pid: i32) -> i64 {
    store.leaderboard.skill_points_of(pid)
}

/// First-ever submission on a fresh song: one song row, one score row with
/// one play, the sentinel dethrone section, and the formula's skill points.
#[test]
fn first_submission_on_fresh_song() {
    let mut store = Store::new();
    let p1 = login(&mut store, "PlayerOne", 76561197960265729, 1, 100);
    let out = fetch_song_id(&mut store, "Sendoff", "Inverted Silence", &None, 100);
    assert!(out.created);
    assert_eq!(store.songs.len(), 1);
    let sid = out.song_id;

    let r = send_ride(
        &mut store,
        p1,
        sid,
        League::Elite,
        508143,
        Character::PointmanElite,
        vec![],
        28224,
        "68x65x62x58x",
        "1,2,3",
        7,
        84490,
        0,
        0,
        1000,
    )
    .unwrap();
    assert_eq!(store.scores.len(), 1);
    let row = &store.scores[r.score_index];
    assert_eq!(row.play_count, 1);
    assert_eq!(row.score, 508143);
    assert_eq!(row.track_shape, vec![68, 65, 62, 58]);
    // round((508143 / 84490) * 300) = 1804
    assert_eq!(points(&store, p1), 1804);

    let b = &r.beat_score;
    assert!(!b.dethroned);
    assert!(!b.friend);
    assert_eq!(b.rival_name, "No one");
    assert_eq!(b.rival_score, 143);
    assert_eq!(b.my_score, 0);
    assert_eq!(b.reign_seconds, 0);
    let xml = send_ride_response(sid, b);
    let expected = format!(
        "<RESULT status=\"allgood\"><songid>{sid}</songid><beatscore dethroned=\"false\" friend=\"false\"><rivalname>No one</rivalname><rivalscore>143</rivalscore><myscore>0</myscore><reignseconds>0</reignseconds></beatscore></RESULT>"
    );
    assert_eq!(xml, expected);
    assert_eq!(r.enrich_duration_ms, 282240);
}

fn base_store() -> (Store, i32, i32, usize) {
    let mut store = Store::new();
    let p1 = login(&mut store, "PlayerOne", 76561197960265729, 1, 100);
    let out = fetch_song_id(&mut store, "Sendoff", "Inverted Silence", &None, 100);
    let r = send_ride(
        &mut store,
        p1,
        out.song_id,
        League::Elite,
        508143,
        Character::PointmanElite,
        vec![],
        28224,
        "68x65x62x58x",
        "1,2,3",
        7,
        84490,
        0,
        0,
        1000,
    )
    .unwrap();
    (store, p1, out.song_id, r.score_index)
}

/// A second player beating the standing score dethrones its holder.
#[test]
fn dethrone_reports_the_displaced_leader() {
    let (mut store, p1, sid, _) = base_store();
    let p2 = login(&mut store, "PlayerTwo", 76561197960265730, 2, 200);
    let r = send_ride(
        &mut store,
        p2,
        sid,
        League::Elite,
        600000,
        Character::Eraser,
        vec![],
        28224,
        "1x2x",
        "4,5",
        7,
        84490,
        0,
        0,
        4000,
    )
    .unwrap();
    let b = &r.beat_score;
    assert!(b.dethroned);
    assert!(!b.friend);
    assert_eq!(b.rival_name, "PlayerOne");
    assert_eq!(b.rival_score, 508143);
    assert_eq!(b.my_score, 600000);
    assert_eq!(b.reign_seconds, 3000);
    // round((600000 / 84490) * 300) = 2130
    assert_eq!(points(&store, p2), 2130);
    assert_eq!(points(&store, p1), 1804);
    assert_eq!(store.scores.len(), 2);
}

/// Improving one's own best replaces the row and moves the leaderboard by
/// the difference.
#[test]
fn self_improvement_nets_the_difference() {
    let (mut store, p1, sid, idx) = base_store();
    let r = send_ride(
        &mut store,
        p1,
        sid,
        League::Elite,
        550000,
        Character::PointmanElite,
        vec![],
        28224,
        "9x9x",
        "1,2",
        7,
        84490,
        0,
        0,
        5000,
    )
    .unwrap();
    assert_eq!(r.score_index, idx);
    let row = &store.scores[idx];
    assert_eq!(row.play_count, 2);
    assert_eq!(row.score, 550000);
    assert_eq!(row.submitted_at, 5000);
    // 1953 - 1804 = 149 net
    assert_eq!(points(&store, p1), 1953);
    assert_eq!(store.scores.len(), 1);
}

/// A lower ride counts a play and refreshes the timestamp, nothing else.
#[test]
fn non_improvement_only_counts_the_play() {
    let (mut store, p1, sid, idx) = base_store();
    let r = send_ride(
        &mut store,
        p1,
        sid,
        League::Elite,
        400000,
        Character::PointmanElite,
        vec![],
        28224,
        "9x9x",
        "1,2",
        7,
        84490,
        0,
        0,
        6000,
    )
    .unwrap();
    assert_eq!(r.score_index, idx);
    let row = &store.scores[idx];
    assert_eq!(row.score, 508143);
    assert_eq!(row.play_count, 2);
    assert_eq!(row.submitted_at, 6000);
    assert_eq!(points(&store, p1), 1804);
}

/// A recording-id lookup reuses the existing song even when the artist only
/// matches a stored alias — and never creates a second row.
#[test]
fn resolver_matches_by_recording_id() {
    let mut store = Store::new();
    login(&mut store, "Someone", 76561197960265731, 3, 1);
    let out = fetch_song_id(&mut store, "Dyad", "Jamie Paige", &None, 10);
    let sid = out.song_id;
    let mbid = "6c7e91a6-9cba-4ddf-b262-b5bf7be72d44".to_string();
    NewExtraSongInfo::new(
        sid,
        None,
        None,
        Some(mbid.clone()),
        None,
        None,
        None,
        None,
        Some(vec!["JamieP".to_string()]),
    )
    .upsert(&mut store);

    let again = fetch_song_id(&mut store, "Dyad", "JamieP", &Some(mbid), 20);
    assert!(!again.created);
    assert_eq!(again.song_id, sid);
    assert_eq!(store.songs.len(), 1);
}

/// The track shape comes back exactly as the x-joined stored values.
#[test]
fn track_shape_roundtrip() {
    let (store, _p1, _sid, idx) = base_store();
    let ridd = store.scores[idx].id;
    assert_eq!(fetch_track_shape(&store, ridd).unwrap(), "68x65x62x58x");
    assert_eq!(fetch_track_shape(&store, ridd + 1000), None);
}

/// Resolving the same title, artist and tags twice returns the same id and
/// adds nothing the second time.
#[test]
fn resolver_is_idempotent() {
    let mut store = Store::new();
    let ns = NewSong::new(
        "Sendoff".to_string(),
        "Inverted Silence".to_string(),
        None,
    );
    let (sid1, created1) = ns.find_or_create(&mut store, 5);
    let (sid2, created2) = ns.find_or_create(&mut store, 6);
    assert!(created1);
    assert!(!created2);
    assert_eq!(sid1, sid2);
    assert_eq!(store.songs.len(), 1);
}

/// The resolver matches the canonical MusicBrainz title case-insensitively.
#[test]
fn resolver_matches_musicbrainz_title_ignoring_case() {
    let mut store = Store::new();
    let (sid, _) = NewSong::new("Stored Name".to_string(), "Artist".to_string(), None)
        .find_or_create(&mut store, 1);
    apply_musicbrainz(
        &mut store,
        sid,
        &MusicBrainzInfo {
            cover_url: None,
            cover_url_small: None,
            mbid: "m-1".to_string(),
            musicbrainz_title: "DYAD".to_string(),
            musicbrainz_artist: "ARTIST".to_string(),
            musicbrainz_length: 180000,
        },
    );
    let (sid2, created) = NewSong::new("dyad".to_string(), "artist".to_string(), None)
        .find_or_create(&mut store, 2);
    assert!(!created);
    assert_eq!(sid2, sid);
}

/// Tag variants of one track resolve to distinct songs.
#[test]
fn modifiers_separate_song_identities() {
    let mut store = Store::new();
    let plain = fetch_song_id(&mut store, "Tidal Wave", "Somebody", &None, 1);
    let steep = fetch_song_id(&mut store, "Tidal Wave [as-steep]", "Somebody", &None, 2);
    assert_ne!(plain.song_id, steep.song_id);
    assert_eq!(store.songs.len(), 2);
    // and the tagged one resolves back to itself
    let steep2 = fetch_song_id(&mut store, "Tidal Wave [as-steep]", "Somebody", &None, 3);
    assert_eq!(steep2.song_id, steep.song_id);
    assert_eq!(store.songs.len(), 2);
}

/// The friends sync adds one-way rivalries for registered friends only,
/// skipping existing pairs, and reports found-of-listed.
#[test]
fn steam_sync_counts_and_rivalries() {
    let mut store = Store::new();
    let p1 = login(&mut store, "A", 76561197960265729, 11, 1);
    let _p2 = login(&mut store, "B", 76561197960265730, 22, 2);
    let _p3 = login(&mut store, "C", 76561197960265731, 33, 3);
    let nums: Vec<i32> = vec![22, 33, 44];
    let found = sync_friends(&mut store, p1, &nums, 50);
    assert_eq!(found, 2);
    assert_eq!(store.rivalries.len(), 2);
    assert_eq!(
        wavebreaker::wire::steam_sync_response(found as i64, nums.len() as i64),
        "<RESULTS status=\"added 2 of 3 friends\"/>"
    );
    // running it again changes nothing
    let found2 = sync_friends(&mut store, p1, &nums, 60);
    assert_eq!(found2, 2);
    assert_eq!(store.rivalries.len(), 2);
}

/// Mutual rivalry flips the friend flag on a dethrone.
#[test]
fn dethrone_marks_mutual_rivals_as_friends() {
    let (mut store, p1, sid, _) = base_store();
    let p2 = login(&mut store, "PlayerTwo", 76561197960265730, 2, 200);
    sync_friends(&mut store, p1, &vec![2], 210);
    sync_friends(&mut store, p2, &vec![1], 220);
    let r = send_ride(
        &mut store, p2, sid, League::Elite, 600000, Character::Eraser, vec![], 28224, "1x",
        "1", 7, 84490, 0, 0, 4000,
    )
    .unwrap();
    assert!(r.beat_score.dethroned);
    assert!(r.beat_score.friend);
}

/// Deleting a score takes its points off the leaderboard; recomputation
/// then confirms the stored sums.
#[test]
fn delete_and_recompute_agree() {
    let (mut store, p1, _sid, idx) = base_store();
    assert_eq!(calc_skill_points(&store, p1), 1804);
    refresh_skill_points(&mut store, p1);
    assert_eq!(points(&store, p1), 1804);
    let id = store.scores[idx].id;
    assert!(delete_score(&mut store, id));
    assert_eq!(points(&store, p1), 0);
    assert_eq!(store.scores.len(), 0);
    assert!(!delete_score(&mut store, id));
}

/// Unknown players and songs, and bad number lists, are each refused with
/// their own error.
#[test]
fn send_ride_error_variants() {
    let (mut store, p1, sid, _) = base_store();
    let err = send_ride(
        &mut store, 999, sid, League::Elite, 1, Character::Eraser, vec![], 1, "1x", "1", 1,
        100, 0, 0, 1,
    )
    .unwrap_err();
    assert_eq!(err, SendRideError::PlayerNotFound);
    let err = send_ride(
        &mut store, p1, 999, League::Elite, 1, Character::Eraser, vec![], 1, "1x", "1", 1, 100,
        0, 0, 1,
    )
    .unwrap_err();
    assert_eq!(err, SendRideError::SongNotFound);
    let err = send_ride(
        &mut store, p1, sid, League::Elite, 1, Character::Eraser, vec![], 1, "1xAx", "1", 1,
        100, 0, 0, 1,
    )
    .unwrap_err();
    assert_eq!(err, SendRideError::BadTrackShape);
    let err = send_ride(
        &mut store, p1, sid, League::Elite, 1, Character::Eraser, vec![], 1, "1x", "1,,2", 1,
        100, 0, 0, 1,
    )
    .unwrap_err();
    assert_eq!(err, SendRideError::BadXstats);
}

/// A login refreshes the stored name and avatar without duplicating the
/// player.
#[test]
fn login_upserts_by_account_number() {
    let mut store = Store::new();
    let p1 = login(&mut store, "OldName", 76561197960265729, 1, 10);
    let p1b = login(&mut store, "NewName", 76561197960265729, 1, 20);
    assert_eq!(p1, p1b);
    assert_eq!(store.players.len(), 1);
    assert_eq!(store.players[0].username, "NewName");
    assert_eq!(store.players[0].joined_at, 10);
    assert_eq!(points(&store, p1), 0);
}

/// A shout can be deleted by its author and by staff, not by others.
#[test]
fn shout_permissions() {
    let mut store = Store::new();
    let p1 = login(&mut store, "Author", 76561197960265729, 1, 10);
    let p2 = login(&mut store, "Bystander", 76561197960265730, 2, 11);
    let out = fetch_song_id(&mut store, "Song", "Artist", &None, 12);
    let shout_id =
        NewShout::new(out.song_id, p1, "first!".to_string()).insert(&mut store, 13);
    assert_eq!(
        delete_shout(&mut store, shout_id, p2).unwrap_err(),
        DeleteShoutError::Unauthorized
    );
    assert!(delete_shout(&mut store, shout_id, p1).is_ok());
    assert_eq!(
        delete_shout(&mut store, shout_id, p1).unwrap_err(),
        DeleteShoutError::NotFound
    );
    assert_eq!(
        shouts_response(&store, out.song_id),
        "This song has no shouts yet. Let's change that!\n'Cause we're gonna shout it loud!"
    );
}
