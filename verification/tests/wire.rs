use wavebreaker::models::{NewPlayer, NewShout};
use wavebreaker::openid::{extract_steam_id, SteamOpenId};
use wavebreaker::resolver::{fetch_song_id, lowercase};
use wavebreaker::sessions::{SessionStore, TicketCache, TicketStep};
use wavebreaker::shouts::shouts_response;
use wavebreaker::store::Store;
use wavebreaker::wire::{
    custom_news_response, format_datetime, login_response, radio_list_response, song_id_response,
    RadioSong,
};

#[test]
fn song_id_xml_shape() {
    assert_eq!(
        song_id_response(17),
        "<RESULT status=\"allgood\"><songid>17</songid></RESULT>"
    );
}

#[test]
fn login_xml_escapes_the_username() {
    assert_eq!(
        login_response(5, "Tom & Jerry <3", 0, 42),
        "<RESULT status=\"allgood\"><userid>5</userid><username>Tom &amp; Jerry &lt;3</username><locationid>0</locationid><steamid>42</steamid></RESULT>"
    );
}

#[test]
fn custom_news_greets_the_player() {
    assert_eq!(
        custom_news_response("Rider"),
        "<RESULTS><TEXT>Hi, Rider!\n\nWelcome to wavebreaker-rs,\nthe next generation of Wavebreaker!</TEXT></RESULTS>"
    );
}

#[test]
fn radio_list_joins_entries_and_falls_back() {
    let none: Vec<RadioSong> = vec![];
    assert_eq!(
        radio_list_response(&none),
        "no radio songs-:*x-This server has-:*x-none-:*x-https://github.com/AudiosurfResearch-:*x-"
    );
    let songs = vec![RadioSong {
        id: 1,
        title: "Title".to_string(),
        artist: "Artist".to_string(),
        cgr_url: "http://c".to_string(),
        buy_url: "http://b".to_string(),
        external_url: "http://e".to_string(),
    }];
    assert_eq!(
        radio_list_response(&songs),
        "Artist-:*x-Title-:*x-http://c-:*x-http://b-:*x-"
    );
}

#[test]
fn lowercase_really_lowers() {
    assert_eq!(lowercase("DYAD Ärger"), "dyad ärger");
}

#[test]
fn datetime_rendering_matches_the_clock_crate() {
    let expected = time::OffsetDateTime::from_unix_timestamp(1000000).unwrap().to_string();
    assert_eq!(format_datetime(1000000), expected);
    assert_ne!(format_datetime(1000000), "1000000");
}

#[test]
fn shout_feed_is_newest_first_with_timestamps() {
    let mut store = Store::new();
    let idx = NewPlayer::new(
        "Shouter".to_string(),
        76561197960265729,
        1,
        "http://a".to_string(),
    )
    .create_or_update(&mut store, 1);
    let pid = store.players[idx].id;
    let out = fetch_song_id(&mut store, "Song", "Artist", &None, 2);
    NewShout::new(out.song_id, pid, "older".to_string()).insert(&mut store, 1000);
    NewShout::new(out.song_id, pid, "newer".to_string()).insert(&mut store, 2000);
    let t1 = format_datetime(1000);
    let t2 = format_datetime(2000);
    let expected = format!("Shouter (at {t2}): newer\nShouter (at {t1}): older\n");
    assert_eq!(shouts_response(&store, out.song_id), expected);
}

#[test]
fn ticket_cache_answers_repeat_requests_itself() {
    let mut cache = TicketCache::new();
    let ticket = "a1b2c3".to_string();
    // first sight: the upstream check is needed
    assert_eq!(cache.ticket_auth_step(&ticket, 100), TicketStep::NeedsSteam);
    cache.store_ticket(ticket.clone(), 76561197960265729, 100);
    // within the window, the cache answers and Steam is left alone
    assert_eq!(
        cache.ticket_auth_step(&ticket, 101),
        TicketStep::Cached(76561197960265729)
    );
    assert_eq!(
        cache.ticket_auth_step(&ticket, 100 + 28799),
        TicketStep::Cached(76561197960265729)
    );
    // at expiry the next request goes upstream again
    assert_eq!(
        cache.ticket_auth_step(&ticket, 100 + 28800),
        TicketStep::NeedsSteam
    );
    // an unknown ticket is never answered from the cache
    assert_eq!(
        cache.ticket_auth_step(&"other".to_string(), 101),
        TicketStep::NeedsSteam
    );
}

#[test]
fn session_tokens_live_refresh_and_die() {
    let mut sessions = SessionStore::new();
    let tok = sessions.create_session(7, 1000);
    assert_eq!(tok.len(), 24);
    assert!(tok.chars().all(|c| c.is_ascii_alphanumeric()));
    assert_eq!(sessions.verify_token(&tok, 2000), Some(7));
    // the read pushed the expiry out from 2000
    assert_eq!(sessions.verify_token(&tok, 2000 + 1814399), Some(7));
    sessions.delete_token(&tok);
    assert_eq!(sessions.verify_token(&tok, 2001), None);
    assert_eq!(sessions.verify_token(&"nope".to_string(), 2001), None);
}

#[test]
fn openid_redirect_and_identity() {
    let flow = SteamOpenId::new("https://wavebreaker.example", "/api/auth/return").unwrap();
    assert_eq!(
        flow.get_redirect_url(),
        "https://steamcommunity.com/openid/login?openid.ns=http%3A%2F%2Fspecs.openid.net%2Fauth%2F2.0&openid.identity=http%3A%2F%2Fspecs.openid.net%2Fauth%2F2.0%2Fidentifier_select&openid.claimed_id=http%3A%2F%2Fspecs.openid.net%2Fauth%2F2.0%2Fidentifier_select&openid.mode=checkid_setup&openid.return_to=https%3A%2F%2Fwavebreaker.example%2Fapi%2Fauth%2Freturn&openid.realm=https%3A%2F%2Fwavebreaker.example"
    );
    assert!(SteamOpenId::new("ftp://nope", "/x").is_err());

    assert_eq!(
        extract_steam_id("https://steamcommunity.com/openid/id/76561197960265729"),
        Some(76561197960265729)
    );
    assert_eq!(
        extract_steam_id("https://steamcommunity.com/openid/id/7656119796026572"),
        None
    );
    assert_eq!(
        extract_steam_id("http://steamcommunity.com/openid/id/76561197960265729"),
        None
    );
    assert_eq!(
        extract_steam_id("https://steamcommunity.com/openid/id/7656119796026572X"),
        None
    );
}

#[test]
fn openid_check_authentication_decision() {
    let flow = SteamOpenId::new("https://wavebreaker.example", "/api/auth/return").unwrap();
    let rt = "https://wavebreaker.example/api/auth/return".to_string();
    assert!(flow
        .verify_auth_response(&rt, "ns:http://specs.openid.net/auth/2.0\nis_valid:true\n")
        .is_ok());
    assert!(flow
        .verify_auth_response(&rt, "ns:http://specs.openid.net/auth/2.0\nis_valid:false\n")
        .is_err());
    // a substring is not the acceptance line
    assert!(flow.verify_auth_response(&rt, "xis_valid:true\n").is_err());
    let other = "https://elsewhere.example/return".to_string();
    assert!(flow.verify_auth_response(&other, "is_valid:true").is_err());
}
