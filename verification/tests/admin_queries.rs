use wavebreaker::admin::delete_song;
use wavebreaker::game_types::AccountType;
use wavebreaker::merge::merge_song_into;
use wavebreaker::models::NewShout;
use wavebreaker::shouts::delete_shout;
use wavebreaker::users::set_account_type;
use wavebreaker::wire::get_rides_response;
use wavebreaker::game_types::{Character, League, SortType};
use wavebreaker::gameplay::send_ride;
use wavebreaker::models::NewPlayer;
use wavebreaker::musicbrainz::{join_artist_credits, search_query, ArtistCredit};
use wavebreaker::queries::{score_search, top_songs, ScoreFilter};
use wavebreaker::resolver::fetch_song_id;
use wavebreaker::store::Store;
use wavebreaker::sessions::SessionStore;
use wavebreaker::users::{add_rival, get_total_plays, remove_rival, rivalry_is_mutual, RivalError};

fn login(store: &mut Store, name: &str, steam_id: u64, num: i32, t: i64) -> i32 {
    let idx = NewPlayer::new(name.to_string(), steam_id, num, String::new())
        .create_or_update(store, t);
    store.players[idx].id
}

fn submit(store: &mut Store, pid: i32, sid: i32, league: League, score: i32, t: i64) {
    send_ride(
        store,
        pid,
        sid,
        league,
        score,
        Character::Eraser,
        vec![],
        1000,
        "1x2x",
        "3",
        5,
        1000,
        0,
        0,
        t,
    )
    .unwrap();
}

/// Deleting a song cascades: its scores pay their points back, its shouts
/// and metadata go, other songs are untouched.
#[test]
fn delete_song_cascades() {
    let mut store = Store::new();
    let p1 = login(&mut store, "A", 76561197960265729, 1, 1);
    let s1 = fetch_song_id(&mut store, "One", "X", &None, 2).song_id;
    let s2 = fetch_song_id(&mut store, "Two", "X", &None, 3).song_id;
    submit(&mut store, p1, s1, League::Casual, 1000, 10);
    submit(&mut store, p1, s2, League::Casual, 2000, 11);
    let pts_before = store.leaderboard.skill_points_of(p1);
    assert_eq!(pts_before, 100 + 200);

    assert!(delete_song(&mut store, s1));
    assert_eq!(store.songs.len(), 1);
    assert_eq!(store.scores.len(), 1);
    assert_eq!(store.scores[0].song_id, s2);
    assert_eq!(store.leaderboard.skill_points_of(p1), 200);
    assert!(!delete_song(&mut store, s1));
}

/// The score search filters, orders and pages exactly.
#[test]
fn score_search_filters_and_pages() {
    let mut store = Store::new();
    let p1 = login(&mut store, "A", 76561197960265729, 1, 1);
    let p2 = login(&mut store, "B", 76561197960265730, 2, 2);
    let s1 = fetch_song_id(&mut store, "One", "X", &None, 3).song_id;
    let s2 = fetch_song_id(&mut store, "Two", "X", &None, 4).song_id;
    submit(&mut store, p1, s1, League::Casual, 500, 10);
    submit(&mut store, p2, s1, League::Casual, 900, 11);
    submit(&mut store, p1, s2, League::Pro, 700, 12);

    let all = ScoreFilter {
        league: None,
        character: None,
        player_id: None,
        song_id: None,
        player_ids: None,
    };
    let (page, total) = score_search(&store, &all, None, Some(SortType::Desc), 0, 10);
    assert_eq!(total, 3);
    let scores: Vec<i32> = page.iter().map(|r| r.score).collect();
    assert_eq!(scores, vec![900, 700, 500]);

    let by_player = ScoreFilter { player_id: Some(p1), ..all.clone() };
    let (page, total) = score_search(&store, &by_player, Some(SortType::Asc), None, 0, 10);
    assert_eq!(total, 2);
    let times: Vec<i64> = page.iter().map(|r| r.submitted_at).collect();
    assert_eq!(times, vec![10, 12]);

    let rivals = ScoreFilter { player_ids: Some(vec![p2]), ..all.clone() };
    let (page, total) = score_search(&store, &rivals, None, None, 0, 10);
    assert_eq!(total, 1);
    assert_eq!(page[0].score, 900);

    // paging
    let (page, _) = score_search(&store, &all, None, Some(SortType::Desc), 1, 1);
    assert_eq!(page.len(), 1);
    assert_eq!(page[0].score, 700);
    let (page, _) = score_search(&store, &all, None, None, 5, 10);
    assert_eq!(page.len(), 0);
}

/// The song rankings order by play count, most played first.
#[test]
fn top_songs_orders_by_plays() {
    let mut store = Store::new();
    let p1 = login(&mut store, "A", 76561197960265729, 1, 1);
    let p2 = login(&mut store, "B", 76561197960265730, 2, 2);
    let s1 = fetch_song_id(&mut store, "One", "X", &None, 3).song_id;
    let s2 = fetch_song_id(&mut store, "Two", "X", &None, 4).song_id;
    submit(&mut store, p1, s2, League::Casual, 100, 10);
    submit(&mut store, p2, s2, League::Casual, 200, 11);
    submit(&mut store, p1, s1, League::Casual, 300, 12);
    let ranks = top_songs(&store, 0, 10);
    assert_eq!(ranks.len(), 2);
    assert_eq!(ranks[0].id, s2);
    assert_eq!(ranks[0].times_played, 2);
    assert_eq!(ranks[1].id, s1);
}

/// Rival adds and removes are one-way and refuse the right cases.
#[test]
fn rival_add_remove() {
    let mut store = Store::new();
    let p1 = login(&mut store, "A", 76561197960265729, 1, 1);
    let p2 = login(&mut store, "B", 76561197960265730, 2, 2);
    assert_eq!(
        add_rival(&mut store, p1, 999, 5).unwrap_err(),
        RivalError::PlayerNotFound
    );
    assert!(add_rival(&mut store, p1, p2, 5).is_ok());
    assert_eq!(
        add_rival(&mut store, p1, p2, 6).unwrap_err(),
        RivalError::AlreadyRivals
    );
    assert!(!rivalry_is_mutual(&store, p1, p2));
    assert!(add_rival(&mut store, p2, p1, 7).is_ok());
    assert!(rivalry_is_mutual(&store, p1, p2));
    assert!(remove_rival(&mut store, p1, p2).is_ok());
    assert_eq!(
        remove_rival(&mut store, p1, p2).unwrap_err(),
        RivalError::NotRivals
    );
    // the reverse direction survives
    assert!(store.rivalry_exists(p2, p1));
}

/// Every submission counts toward the play total, improving or not.
#[test]
fn total_plays_counts_every_submission() {
    let mut store = Store::new();
    let p1 = login(&mut store, "A", 76561197960265729, 1, 1);
    let s1 = fetch_song_id(&mut store, "One", "X", &None, 2).song_id;
    submit(&mut store, p1, s1, League::Casual, 500, 10);
    submit(&mut store, p1, s1, League::Casual, 400, 11);
    submit(&mut store, p1, s1, League::Casual, 600, 12);
    assert_eq!(get_total_plays(&store, p1), 3);
}

/// The recording search query has the exact documented shape.
#[test]
fn musicbrainz_query_shape() {
    assert_eq!(
        search_query("Sendoff", "Inverted Silence", 282240),
        "query=(recording:\"Sendoff\" OR alias:\"Sendoff\") AND artist:\"Inverted Silence\" AND dur:\"[276240 TO 288240]\""
    );
}

/// Artist credits join with their punctuation kept.
#[test]
fn artist_credits_join() {
    let credits = vec![
        ArtistCredit {
            name: "First".to_string(),
            joinphrase: Some(" feat. ".to_string()),
        },
        ArtistCredit {
            name: "Second".to_string(),
            joinphrase: None,
        },
    ];
    assert_eq!(join_artist_credits(&credits), "First feat. Second");
}

/// Metadata edits are open to staff and to whoever set the song's first
/// score.
#[test]
fn song_edit_permission() {
    let mut store = Store::new();
    let p1 = login(&mut store, "First", 76561197960265729, 1, 1);
    let p2 = login(&mut store, "Later", 76561197960265730, 2, 2);
    let sid = fetch_song_id(&mut store, "One", "X", &None, 3).song_id;
    assert!(!store.user_can_edit(sid, p1));
    submit(&mut store, p2, sid, League::Casual, 100, 20);
    submit(&mut store, p1, sid, League::Pro, 100, 10);
    // the earliest submission wins, not row order
    assert!(store.user_can_edit(sid, p1));
    assert!(!store.user_can_edit(sid, p2));
}

/// The ban sweep forgets every session of one player and nobody else's.
#[test]
fn session_sweep_by_player() {
    let mut sessions = SessionStore::new();
    let t1 = sessions.create_session(1, 100);
    let t2 = sessions.create_session(1, 101);
    let t3 = sessions.create_session(2, 102);
    sessions.delete_all_for_player(1);
    assert_eq!(sessions.verify_token(&t1, 200), None);
    assert_eq!(sessions.verify_token(&t2, 200), None);
    assert_eq!(sessions.verify_token(&t3, 200), Some(2));
}

/// Merging folds rows onto the target: the higher ride survives with both
/// play counts, losers pay their points back, and the source song goes.
#[test]
fn merge_song_folds_rows() {
    let mut store = Store::new();
    let p1 = login(&mut store, "A", 76561197960265729, 1, 1);
    let p2 = login(&mut store, "B", 76561197960265730, 2, 2);
    let dup = fetch_song_id(&mut store, "Same Song", "X", &None, 3).song_id;
    let main = fetch_song_id(&mut store, "Same Song (remaster)", "X", &None, 4).song_id;
    // p1 is better on the duplicate, p2 on the target, and p2 also has a
    // duplicate-only row
    submit(&mut store, p1, dup, League::Casual, 900, 10); // 90 points
    submit(&mut store, p1, main, League::Casual, 400, 11); // 40 points
    submit(&mut store, p2, dup, League::Casual, 300, 12); // 30 points
    submit(&mut store, p2, main, League::Casual, 800, 13); // 80 points
    submit(&mut store, p2, dup, League::Pro, 500, 14); // 100 points

    assert!(merge_song_into(&mut store, dup, main, true));
    assert_eq!(store.songs.len(), 1);
    assert_eq!(store.scores.len(), 3);
    // p1 keeps the winning 900 with both plays; the 400 row is gone
    let r1 = &store.scores[store.find_score_by_triple(p1, main, League::Casual).unwrap()];
    assert_eq!(r1.score, 900);
    assert_eq!(r1.play_count, 2);
    // p2 keeps the target 800; the 300 is folded into its play count
    let r2 = &store.scores[store.find_score_by_triple(p2, main, League::Casual).unwrap()];
    assert_eq!(r2.score, 800);
    assert_eq!(r2.play_count, 2);
    // p2's duplicate-only Pro row simply moved over
    let r3 = &store.scores[store.find_score_by_triple(p2, main, League::Pro).unwrap()];
    assert_eq!(r3.score, 500);
    assert_eq!(r3.play_count, 1);
    // points follow the surviving rows
    assert_eq!(store.leaderboard.skill_points_of(p1), 90);
    assert_eq!(store.leaderboard.skill_points_of(p2), 180);
    // the source naming became aliases of the target
    let e = &store.extra_infos[store.find_extra_for_song(main).unwrap()];
    assert!(e.aliases_title.as_ref().unwrap().contains(&"Same Song".to_string()));
    assert!(e.aliases_artist.as_ref().unwrap().contains(&"X".to_string()));
    // and the alias now resolves to the merged song
    let back = fetch_song_id(&mut store, "Same Song", "X", &None, 20);
    assert!(!back.created);
    assert_eq!(back.song_id, main);
    // merging with a missing or identical song is refused
    assert!(!merge_song_into(&mut store, dup, main, false));
    assert!(!merge_song_into(&mut store, main, main, false));
}

/// Account promotion changes the rank and nothing else; staff can then
/// delete foreign shouts.
#[test]
fn account_type_changes() {
    let mut store = Store::new();
    let p1 = login(&mut store, "Author", 76561197960265729, 1, 1);
    let p2 = login(&mut store, "Mod", 76561197960265730, 2, 2);
    let sid = fetch_song_id(&mut store, "Song", "X", &None, 3).song_id;
    let shout_id = NewShout::new(sid, p1, "hello".to_string()).insert(&mut store, 4);
    assert!(delete_shout(&mut store, shout_id, p2).is_err());
    assert!(set_account_type(&mut store, p2, AccountType::Moderator));
    assert!(!set_account_type(&mut store, 999, AccountType::Team));
    assert!(delete_shout(&mut store, shout_id, p2).is_ok());
}

/// The rides body carries the three slices, all leagues, and the sentinel.
#[test]
fn rides_body_shape() {
    let mut store = Store::new();
    let p1 = login(&mut store, "Solo", 76561197960265729, 1, 1);
    let sid = fetch_song_id(&mut store, "One", "X", &None, 2).song_id;
    submit(&mut store, p1, sid, League::Casual, 1000, 10);
    let body = get_rides_response(&store, sid, p1).unwrap();
    let ride = "<ride><username>Solo</username><score>1000</score><vehicleid>4</vehicleid><ridetime>10</ridetime><feats></feats><songlength>1000</songlength><trafficcount>1</trafficcount></ride>";
    let expected = format!(
        "<RESULTS status=\"allgood\"><scores scoretype=\"1\"><league leagueid=\"0\">{ride}</league><league leagueid=\"1\"></league><league leagueid=\"2\"></league></scores><scores scoretype=\"0\"><league leagueid=\"0\">{ride}</league><league leagueid=\"1\"></league><league leagueid=\"2\"></league></scores><scores scoretype=\"2\"><league leagueid=\"0\">{ride}</league><league leagueid=\"1\"></league><league leagueid=\"2\"></league></scores><servertime>143</servertime></RESULTS>"
    );
    assert_eq!(body, expected);
    assert!(get_rides_response(&store, sid, 999).is_none());
}
