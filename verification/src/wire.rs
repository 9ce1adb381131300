//! The legacy client's wire formats: XML response bodies with exact element
//! layout, attribute casing and sentinel values, and the raw line formats.
//!
//! Text content is XML-escaped; numbers are plain decimal. The client's
//! parser is strict, so every byte here is part of the contract.

use vstd::prelude::*;
use crate::game_types::{League, SortType};
use crate::gameplay::BeatScore;
use crate::models::{Player, Rivalry};
use crate::numbers::{dec_str, i64_to_chars, i32_to_chars};
use crate::queries::{score_search, ScoreFilter, ScoreRef};
use crate::store::Store;
use crate::strings::{push_str_chars, string_from_chars};

verus! {

/// A configured Audiosurf Radio entry.
#[derive(Clone, Debug)]
pub struct RadioSong {
    pub id: i32,
    pub title: String,
    pub artist: String,
    pub cgr_url: String,
    pub buy_url: String,
    pub external_url: String,
}

/// What `time`'s clock rendering returns for a unix timestamp: a function
/// of the timestamp alone.
pub uninterp spec fn datetime_display_of(secs: int) -> Seq<char>;

/// Relies on `time::OffsetDateTime::from_unix_timestamp` and its `Display`:
/// the rendering depends on the timestamp alone; an out-of-range timestamp
/// falls back to its decimal form.
#[verifier::external_body]
pub fn format_datetime(secs: i64) -> (r: String)
    ensures
        r@ == datetime_display_of(secs as int),
{
    match time::OffsetDateTime::from_unix_timestamp(secs) {
        Ok(t) => t.to_string(),
        Err(_) => secs.to_string(),
    }
}

/// The XML entity escape of one character.
pub open spec fn esc_char(c: char) -> Seq<char> {
    if c == '&' {
        "&amp;"@
    } else if c == '<' {
        "&lt;"@
    } else if c == '>' {
        "&gt;"@
    } else if c == '\'' {
        "&apos;"@
    } else if c == '"' {
        "&quot;"@
    } else {
        seq![c]
    }
}

/// The XML escape of a text, character by character.
pub open spec fn xml_escaped(s: Seq<char>) -> Seq<char>
    decreases s.len(),
{
    if s.len() == 0 {
        Seq::empty()
    } else {
        xml_escaped(s.drop_last()) + esc_char(s.last())
    }
}

/// Appends the XML escape of `s` to the buffer.
#[verifier::loop_isolation(false)]
pub fn push_xml_escaped(buf: &mut Vec<char>, s: &str)
    ensures
        final(buf)@ == old(buf)@ + xml_escaped(s@),
{
    let cs = crate::strings::chars_vec(s);
    let mut i: usize = 0;
    while i < cs.len()
        invariant
            i <= cs@.len(),
            cs@ == s@,
            buf@ == old(buf)@ + xml_escaped(s@.take(i as int)),
        decreases cs@.len() - i,
    {
        let c = cs[i];
        proof {
            assert(s@.take(i + 1).drop_last() =~= s@.take(i as int));
            assert(s@.take(i + 1).last() == s@[i as int]);
        }
        let ghost before = buf@;
        if c == '&' {
            push_str_chars(buf, "&amp;");
        } else if c == '<' {
            push_str_chars(buf, "&lt;");
        } else if c == '>' {
            push_str_chars(buf, "&gt;");
        } else if c == '\'' {
            push_str_chars(buf, "&apos;");
        } else if c == '"' {
            push_str_chars(buf, "&quot;");
        } else {
            buf.push(c);
            proof {
                assert(buf@ =~= before + seq![c]);
            }
        }
        proof {
            assert(buf@ =~= old(buf)@ + xml_escaped(s@.take(i + 1)));
        }
        i = i + 1;
    }
    proof {
        assert(s@.take(s@.len() as int) =~= s@);
    }
}

pub open spec fn bool_str(b: bool) -> Seq<char> {
    if b {
        "true"@
    } else {
        "false"@
    }
}

fn push_bool(buf: &mut Vec<char>, b: bool)
    ensures
        final(buf)@ == old(buf)@ + bool_str(b),
{
    if b {
        push_str_chars(buf, "true");
    } else {
        push_str_chars(buf, "false");
    }
}

fn push_i32(buf: &mut Vec<char>, n: i32)
    ensures
        final(buf)@ == old(buf)@ + dec_str(n as int),
{
    let ds = i32_to_chars(n);
    let ghost before = buf@;
    let mut k: usize = 0;
    while k < ds.len()
        invariant
            k <= ds@.len(),
            ds@ == dec_str(n as int),
            buf@ == before + ds@.take(k as int),
        decreases ds@.len() - k,
    {
        buf.push(ds[k]);
        proof {
            assert(before + ds@.take(k as int) + seq![ds@[k as int]] =~= before + ds@.take(
                k + 1,
            ));
        }
        k = k + 1;
    }
    proof {
        assert(ds@.take(ds@.len() as int) =~= ds@);
    }
}

fn push_i64(buf: &mut Vec<char>, n: i64)
    ensures
        final(buf)@ == old(buf)@ + dec_str(n as int),
{
    let ds = i64_to_chars(n);
    let ghost before = buf@;
    let mut k: usize = 0;
    while k < ds.len()
        invariant
            k <= ds@.len(),
            ds@ == dec_str(n as int),
            buf@ == before + ds@.take(k as int),
        decreases ds@.len() - k,
    {
        buf.push(ds[k]);
        proof {
            assert(before + ds@.take(k as int) + seq![ds@[k as int]] =~= before + ds@.take(
                k + 1,
            ));
        }
        k = k + 1;
    }
    proof {
        assert(ds@.take(ds@.len() as int) =~= ds@);
    }
}

/// The song-id response body.
pub open spec fn resp_song_id(id: int) -> Seq<char> {
    "<RESULT status=\"allgood\"><songid>"@ + dec_str(id) + "</songid></RESULT>"@
}

/// Renders the song-id response.
pub fn song_id_response(id: i32) -> (r: String)
    ensures
        r@ == resp_song_id(id as int),
{
    let mut buf: Vec<char> = Vec::new();
    push_str_chars(&mut buf, "<RESULT status=\"allgood\"><songid>");
    push_i32(&mut buf, id);
    push_str_chars(&mut buf, "</songid></RESULT>");
    string_from_chars(&buf)
}

/// The dethrone section of a ride response.
pub open spec fn beat_score_xml(b: BeatScore) -> Seq<char> {
    "<beatscore dethroned=\""@ + bool_str(b.dethroned) + "\" friend=\""@ + bool_str(b.friend)
        + "\"><rivalname>"@ + xml_escaped(b.rival_name@) + "</rivalname><rivalscore>"@ + dec_str(
        b.rival_score as int,
    ) + "</rivalscore><myscore>"@ + dec_str(b.my_score as int) + "</myscore><reignseconds>"@
        + dec_str(b.reign_seconds as int) + "</reignseconds></beatscore>"@
}

/// The ride submission response body.
pub open spec fn resp_send_ride(song_id: int, b: BeatScore) -> Seq<char> {
    "<RESULT status=\"allgood\"><songid>"@ + dec_str(song_id) + "</songid>"@ + beat_score_xml(b)
        + "</RESULT>"@
}

/// Renders the ride submission response.
pub fn send_ride_response(song_id: i32, b: &BeatScore) -> (r: String)
    ensures
        r@ == resp_send_ride(song_id as int, *b),
{
    let mut buf: Vec<char> = Vec::new();
    push_str_chars(&mut buf, "<RESULT status=\"allgood\"><songid>");
    push_i32(&mut buf, song_id);
    push_str_chars(&mut buf, "</songid>");
    push_str_chars(&mut buf, "<beatscore dethroned=\"");
    push_bool(&mut buf, b.dethroned);
    push_str_chars(&mut buf, "\" friend=\"");
    push_bool(&mut buf, b.friend);
    push_str_chars(&mut buf, "\"><rivalname>");
    push_xml_escaped(&mut buf, b.rival_name.as_str());
    push_str_chars(&mut buf, "</rivalname><rivalscore>");
    push_i32(&mut buf, b.rival_score);
    push_str_chars(&mut buf, "</rivalscore><myscore>");
    push_i32(&mut buf, b.my_score);
    push_str_chars(&mut buf, "</myscore><reignseconds>");
    push_i64(&mut buf, b.reign_seconds);
    push_str_chars(&mut buf, "</reignseconds></beatscore>");
    push_str_chars(&mut buf, "</RESULT>");
    proof {
        assert(buf@ =~= resp_send_ride(song_id as int, *b));
    }
    string_from_chars(&buf)
}

/// The login response body.
pub open spec fn resp_login(user_id: int, username: Seq<char>, location_id: int, steam_num: int) -> Seq<char> {
    "<RESULT status=\"allgood\"><userid>"@ + dec_str(user_id) + "</userid><username>"@
        + xml_escaped(username) + "</username><locationid>"@ + dec_str(location_id)
        + "</locationid><steamid>"@ + dec_str(steam_num) + "</steamid></RESULT>"@
}

/// Renders the login response.
pub fn login_response(user_id: i32, username: &str, location_id: i32, steam_num: i32) -> (r:
    String)
    ensures
        r@ == resp_login(user_id as int, username@, location_id as int, steam_num as int),
{
    let mut buf: Vec<char> = Vec::new();
    push_str_chars(&mut buf, "<RESULT status=\"allgood\"><userid>");
    push_i32(&mut buf, user_id);
    push_str_chars(&mut buf, "</userid><username>");
    push_xml_escaped(&mut buf, username);
    push_str_chars(&mut buf, "</username><locationid>");
    push_i32(&mut buf, location_id);
    push_str_chars(&mut buf, "</locationid><steamid>");
    push_i32(&mut buf, steam_num);
    push_str_chars(&mut buf, "</steamid></RESULT>");
    proof {
        assert(buf@ =~= resp_login(user_id as int, username@, location_id as int,
            steam_num as int));
    }
    string_from_chars(&buf)
}

/// The friends-sync response body, reporting found-of-listed counts.
pub open spec fn resp_steam_sync(found: int, total: int) -> Seq<char> {
    "<RESULTS status=\"added "@ + dec_str(found) + " of "@ + dec_str(total) + " friends\"/>"@
}

/// Renders the friends-sync response.
pub fn steam_sync_response(found: i64, total: i64) -> (r: String)
    ensures
        r@ == resp_steam_sync(found as int, total as int),
{
    let mut buf: Vec<char> = Vec::new();
    push_str_chars(&mut buf, "<RESULTS status=\"added ");
    push_i64(&mut buf, found);
    push_str_chars(&mut buf, " of ");
    push_i64(&mut buf, total);
    push_str_chars(&mut buf, " friends\"/>");
    proof {
        assert(buf@ =~= resp_steam_sync(found as int, total as int));
    }
    string_from_chars(&buf)
}

/// The welcome text shown before a song, greeting the player.
pub open spec fn resp_custom_news(username: Seq<char>) -> Seq<char> {
    "<RESULTS><TEXT>Hi, "@ + xml_escaped(username)
        + "!\n\nWelcome to wavebreaker-rs,\nthe next generation of Wavebreaker!</TEXT></RESULTS>"@
}

/// Renders the custom-news response.
pub fn custom_news_response(username: &str) -> (r: String)
    ensures
        r@ == resp_custom_news(username@),
{
    let mut buf: Vec<char> = Vec::new();
    push_str_chars(&mut buf, "<RESULTS><TEXT>Hi, ");
    push_xml_escaped(&mut buf, username);
    push_str_chars(
        &mut buf,
        "!\n\nWelcome to wavebreaker-rs,\nthe next generation of Wavebreaker!</TEXT></RESULTS>",
    );
    proof {
        assert(buf@ =~= resp_custom_news(username@));
    }
    string_from_chars(&buf)
}

/// One radio entry on the wire: artist, title, the track file and the buy
/// link, each followed by the literal separator.
pub open spec fn radio_entry_line(s: RadioSong) -> Seq<char> {
    s.artist@ + "-:*x-"@ + s.title@ + "-:*x-"@ + s.cgr_url@ + "-:*x-"@ + s.buy_url@ + "-:*x-"@
}

/// The whole radio list, entries in order.
pub open spec fn radio_list_line(songs: Seq<RadioSong>) -> Seq<char>
    decreases songs.len(),
{
    if songs.len() == 0 {
        Seq::empty()
    } else {
        radio_list_line(songs.drop_last()) + radio_entry_line(songs.last())
    }
}

/// The placeholder entry served when no radio songs are configured.
pub open spec fn radio_placeholder() -> Seq<char> {
    "no radio songs-:*x-This server has-:*x-none-:*x-https://github.com/AudiosurfResearch-:*x-"@
}

/// Renders the radio list body: all configured songs joined in order, or
/// the placeholder entry when none are configured.
#[verifier::loop_isolation(false)]
pub fn radio_list_response(songs: &Vec<RadioSong>) -> (r: String)
    ensures
        songs@.len() == 0 ==> r@ == radio_placeholder(),
        songs@.len() > 0 ==> r@ == radio_list_line(songs@),
{
    if songs.len() == 0 {
        let mut buf: Vec<char> = Vec::new();
        push_str_chars(
            &mut buf,
            "no radio songs-:*x-This server has-:*x-none-:*x-https://github.com/AudiosurfResearch-:*x-",
        );
        return string_from_chars(&buf);
    }
    let mut buf: Vec<char> = Vec::new();
    let mut i: usize = 0;
    while i < songs.len()
        invariant
            i <= songs@.len(),
            buf@ == radio_list_line(songs@.take(i as int)),
        decreases songs@.len() - i,
    {
        let s = &songs[i];
        push_str_chars(&mut buf, s.artist.as_str());
        push_str_chars(&mut buf, "-:*x-");
        push_str_chars(&mut buf, s.title.as_str());
        push_str_chars(&mut buf, "-:*x-");
        push_str_chars(&mut buf, s.cgr_url.as_str());
        push_str_chars(&mut buf, "-:*x-");
        push_str_chars(&mut buf, s.buy_url.as_str());
        push_str_chars(&mut buf, "-:*x-");
        proof {
            assert(songs@.take(i + 1).drop_last() =~= songs@.take(i as int));
            assert(songs@.take(i + 1).last() == songs@[i as int]);
            assert(buf@ =~= radio_list_line(songs@.take(i + 1)));
        }
        i = i + 1;
    }
    proof {
        assert(songs@.take(songs@.len() as int) =~= songs@);
    }
    string_from_chars(&buf)
}

/// Feats joined with comma and space, as the client displays them.
pub open spec fn joined_feats(fs: Seq<Seq<char>>) -> Seq<char>
    decreases fs.len(),
{
    if fs.len() == 0 {
        Seq::empty()
    } else if fs.len() == 1 {
        fs[0]
    } else {
        joined_feats(fs.drop_last()) + ", "@ + fs.last()
    }
}

/// One ride of an in-game leaderboard slice. The score id travels in the
/// `trafficcount` element.
pub open spec fn ride_xml(store: Store, rf: ScoreRef) -> Seq<char> {
    let row = store.scores@[rf.idx as int];
    let name = store.players@[store.player_index(row.player_id as int)].username@;
    "<ride><username>"@ + xml_escaped(name) + "</username><score>"@ + dec_str(row.score as int)
        + "</score><vehicleid>"@ + dec_str(row.vehicle.spec_num()) + "</vehicleid><ridetime>"@
        + dec_str(row.submitted_at as int) + "</ridetime><feats>"@ + xml_escaped(
        joined_feats(row.feats.deep_view()),
    ) + "</feats><songlength>"@ + dec_str(row.song_length as int)
        + "</songlength><trafficcount>"@ + dec_str(row.id as int)
        + "</trafficcount></ride>"@
}

pub open spec fn rides_xml(store: Store, refs: Seq<ScoreRef>) -> Seq<char>
    decreases refs.len(),
{
    if refs.len() == 0 {
        Seq::empty()
    } else {
        rides_xml(store, refs.drop_last()) + ride_xml(store, refs.last())
    }
}

/// The top rides of one song, league and player set: at most eleven, by
/// points descending.
pub open spec fn slice_refs(store: Store, f: ScoreFilter) -> Seq<ScoreRef> {
    let sorted = crate::queries::filtered_refs(store.scores@, f).sort_by(
        crate::queries::score_ord(None, Some(SortType::Desc)),
    );
    sorted.subrange(
        0,
        if 11 <= sorted.len() {
            11
        } else {
            sorted.len() as int
        },
    )
}

/// The filter of one slice: this song and league, optionally these players.
pub open spec fn slice_filter(song_id: i32, l: League, ids: Option<Vec<i32>>) -> ScoreFilter {
    ScoreFilter {
        league: Some(l),
        character: None,
        player_id: None,
        song_id: Some(song_id),
        player_ids: ids,
    }
}

/// One league element of a slice.
pub open spec fn league_xml(store: Store, song_id: i32, l: League, ids: Option<Vec<i32>>) -> Seq<
    char,
> {
    "<league leagueid=\""@ + dec_str(l.spec_num()) + "\">"@ + rides_xml(
        store,
        slice_refs(store, slice_filter(song_id, l, ids)),
    ) + "</league>"@
}

/// One scoretype element: the three leagues in order.
pub open spec fn scores_xml(store: Store, song_id: i32, stype: int, ids: Option<Vec<i32>>) -> Seq<
    char,
> {
    "<scores scoretype=\""@ + dec_str(stype) + "\">"@ + league_xml(
        store,
        song_id,
        League::Casual,
        ids,
    ) + league_xml(store, song_id, League::Pro, ids) + league_xml(
        store,
        song_id,
        League::Elite,
        ids,
    ) + "</scores>"@
}

/// The whole rides response: the global, rival and nearby slices in the
/// protocol's scoretype order, and the fixed server-time sentinel.
pub open spec fn rides_body(store: Store, song_id: i32, rv: Vec<i32>, nb: Vec<i32>) -> Seq<char> {
    "<RESULTS status=\"allgood\">"@ + scores_xml(store, song_id, 1, None) + scores_xml(
        store,
        song_id,
        0,
        Some(rv),
    ) + scores_xml(store, song_id, 2, Some(nb)) + "<servertime>143</servertime></RESULTS>"@
}

/// The rival ids a player's rivalry rows name, in table order.
pub open spec fn rival_ids_of(rs: Seq<Rivalry>, pid: int) -> Seq<i32>
    decreases rs.len(),
{
    if rs.len() == 0 {
        Seq::empty()
    } else {
        rival_ids_of(rs.drop_last(), pid) + (if rs.last().challenger_id == pid {
            seq![rs.last().rival_id]
        } else {
            Seq::empty()
        })
    }
}

/// The ids of the players at one location, in table order.
pub open spec fn located_ids_of(ps: Seq<Player>, loc: int) -> Seq<i32>
    decreases ps.len(),
{
    if ps.len() == 0 {
        Seq::empty()
    } else {
        located_ids_of(ps.drop_last(), loc) + (if ps.last().location_id == loc {
            seq![ps.last().id]
        } else {
            Seq::empty()
        })
    }
}

/// Appends one ride element.
#[verifier::loop_isolation(false)]
fn push_ride(buf: &mut Vec<char>, store: &Store, rf: ScoreRef)
    requires
        store.wf(),
        rf.idx < store.scores@.len(),
    ensures
        final(buf)@ == old(buf)@ + ride_xml(*store, rf),
{
    let row = &store.scores[rf.idx];
    let pidx = match store.find_player(row.player_id) {
        Some(w) => w,
        None => {
            proof {
                assert(store.has_player_id(store.scores@[rf.idx as int].player_id as int));
                assert(false);
            }
            0
        },
    };
    proof {
        store.lemma_player_index_at(pidx as int);
    }
    push_str_chars(buf, "<ride><username>");
    push_xml_escaped(buf, store.players[pidx].username.as_str());
    push_str_chars(buf, "</username><score>");
    push_i32(buf, row.score);
    push_str_chars(buf, "</score><vehicleid>");
    let vnum = row.vehicle.to_i16();
    push_i32(buf, vnum as i32);
    push_str_chars(buf, "</vehicleid><ridetime>");
    push_i64(buf, row.submitted_at);
    push_str_chars(buf, "</ridetime><feats>");
    let mut feats_buf: Vec<char> = Vec::new();
    let mut k: usize = 0;
    while k < row.feats.len()
        invariant
            k <= row.feats@.len(),
            feats_buf@ == joined_feats(row.feats.deep_view().take(k as int)),
        decreases row.feats@.len() - k,
    {
        if k > 0 {
            push_str_chars(&mut feats_buf, ", ");
        }
        push_str_chars(&mut feats_buf, row.feats[k].as_str());
        proof {
            let fs = row.feats.deep_view();
            assert(fs.take(k + 1).drop_last() =~= fs.take(k as int));
            assert(fs.take(k + 1).last() =~= fs[k as int]);
            assert(fs[k as int] =~= row.feats@[k as int]@);
            assert(feats_buf@ =~= joined_feats(fs.take(k + 1)));
        }
        k = k + 1;
    }
    proof {
        assert(row.feats.deep_view().take(row.feats@.len() as int) =~= row.feats.deep_view());
    }
    let feats_line = string_from_chars(&feats_buf);
    push_xml_escaped(buf, feats_line.as_str());
    push_str_chars(buf, "</feats><songlength>");
    push_i32(buf, row.song_length);
    push_str_chars(buf, "</songlength><trafficcount>");
    push_i32(buf, row.id);
    push_str_chars(buf, "</trafficcount></ride>");
    proof {
        assert(buf@ =~= old(buf)@ + ride_xml(*store, rf));
    }
}

/// Appends one league element of a slice, handing the player set back.
#[verifier::loop_isolation(false)]
fn push_league(buf: &mut Vec<char>, store: &Store, song_id: i32, l: League, ids: Option<Vec<i32>>) -> (r: Option<Vec<i32>>)
    requires
        store.wf(),
    ensures
        r == ids,
        final(buf)@ == old(buf)@ + league_xml(*store, song_id, l, ids),
{
    push_str_chars(buf, "<league leagueid=\"");
    let lnum = l.to_i16();
    push_i32(buf, lnum as i32);
    push_str_chars(buf, "\">");
    let f = ScoreFilter {
        league: Some(l),
        character: None,
        player_id: None,
        song_id: Some(song_id),
        player_ids: ids,
    };
    let (refs, _total) = score_search(store, &f, None, Some(SortType::Desc), 0, 11);
    proof {
        assert(f == slice_filter(song_id, l, f.player_ids));
        assert(refs@ == slice_refs(*store, f));
    }
    let ghost base = buf@;
    let mut k: usize = 0;
    while k < refs.len()
        invariant
            k <= refs@.len(),
            refs@ == slice_refs(*store, slice_filter(song_id, l, f.player_ids)),
            forall|x: int| 0 <= x < refs@.len() ==> (#[trigger] refs@[x]).idx
                < store.scores@.len(),
            buf@ == base + rides_xml(*store, refs@.take(k as int)),
        decreases refs@.len() - k,
    {
        push_ride(buf, store, refs[k]);
        proof {
            assert(refs@.take(k + 1).drop_last() =~= refs@.take(k as int));
            assert(refs@.take(k + 1).last() == refs@[k as int]);
        }
        k = k + 1;
    }
    proof {
        assert(refs@.take(refs@.len() as int) =~= refs@);
    }
    push_str_chars(buf, "</league>");
    let ScoreFilter { player_ids: ids_back, .. } = f;
    proof {
        assert(buf@ =~= old(buf)@ + league_xml(*store, song_id, l, ids_back));
    }
    ids_back
}

/// Appends one scoretype element: the three leagues of one slice, handing
/// the player set back.
fn push_scores_block(buf: &mut Vec<char>, store: &Store, song_id: i32, stype: i32, ids: Option<
    Vec<i32>,
>) -> (r: Option<Vec<i32>>)
    requires
        store.wf(),
    ensures
        r == ids,
        final(buf)@ == old(buf)@ + scores_xml(*store, song_id, stype as int, ids),
{
    push_str_chars(buf, "<scores scoretype=\"");
    push_i32(buf, stype);
    push_str_chars(buf, "\">");
    let ids = push_league(buf, store, song_id, League::Casual, ids);
    let ids = push_league(buf, store, song_id, League::Pro, ids);
    let ids = push_league(buf, store, song_id, League::Elite, ids);
    push_str_chars(buf, "</scores>");
    proof {
        assert(buf@ =~= old(buf)@ + scores_xml(*store, song_id, stype as int, ids));
    }
    ids
}

/// Renders the rides response for a song and player: the global, rival and
/// nearby top-eleven slices over the three leagues, in the protocol's
/// order, ending with the fixed server-time sentinel. The rival slice
/// covers the player's rivals and the player; the nearby slice covers the
/// players sharing their location. `None` when the player is unknown.
#[verifier::loop_isolation(false)]
pub fn get_rides_response(store: &Store, song_id: i32, player_id: i32) -> (r: Option<String>)
    requires
        store.wf(),
    ensures
        match r {
            Some(body) => store.has_player_id(player_id as int) && exists|rv: Vec<i32>, nb: Vec<
                i32,
            >|
                {
                    &&& rv@ == rival_ids_of(store.rivalries@, player_id as int).push(player_id)
                    &&& nb@ == located_ids_of(
                        store.players@,
                        store.players@[store.player_index(player_id as int)].location_id as int,
                    )
                    &&& body@ == #[trigger] rides_body(*store, song_id, rv, nb)
                },
            None => !store.has_player_id(player_id as int),
        },
{
    let pidx = match store.find_player(player_id) {
        Some(w) => w,
        None => {
            return None;
        },
    };
    proof {
        store.lemma_player_index_at(pidx as int);
    }
    let loc = store.players[pidx].location_id;
    let mut rv: Vec<i32> = Vec::new();
    let mut i: usize = 0;
    while i < store.rivalries.len()
        invariant
            i <= store.rivalries@.len(),
            rv@ == rival_ids_of(store.rivalries@.take(i as int), player_id as int),
        decreases store.rivalries@.len() - i,
    {
        proof {
            assert(store.rivalries@.take(i + 1).drop_last() =~= store.rivalries@.take(i as int));
            assert(store.rivalries@.take(i + 1).last() == store.rivalries@[i as int]);
        }
        if store.rivalries[i].challenger_id == player_id {
            rv.push(store.rivalries[i].rival_id);
            proof {
                assert(rv@ =~= rival_ids_of(store.rivalries@.take(i + 1), player_id as int));
            }
        } else {
            proof {
                assert(rv@ =~= rival_ids_of(store.rivalries@.take(i + 1), player_id as int));
            }
        }
        i = i + 1;
    }
    proof {
        assert(store.rivalries@.take(store.rivalries@.len() as int) =~= store.rivalries@);
    }
    rv.push(player_id);
    let mut nb: Vec<i32> = Vec::new();
    let mut i2: usize = 0;
    while i2 < store.players.len()
        invariant
            i2 <= store.players@.len(),
            nb@ == located_ids_of(store.players@.take(i2 as int), loc as int),
        decreases store.players@.len() - i2,
    {
        proof {
            assert(store.players@.take(i2 + 1).drop_last() =~= store.players@.take(i2 as int));
            assert(store.players@.take(i2 + 1).last() == store.players@[i2 as int]);
        }
        if store.players[i2].location_id == loc {
            nb.push(store.players[i2].id);
            proof {
                assert(nb@ =~= located_ids_of(store.players@.take(i2 + 1), loc as int));
            }
        } else {
            proof {
                assert(nb@ =~= located_ids_of(store.players@.take(i2 + 1), loc as int));
            }
        }
        i2 = i2 + 1;
    }
    proof {
        assert(store.players@.take(store.players@.len() as int) =~= store.players@);
    }
    let ghost rv_val = rv;
    let ghost nb_val = nb;
    let mut buf: Vec<char> = Vec::new();
    push_str_chars(&mut buf, "<RESULTS status=\"allgood\">");
    let _ = push_scores_block(&mut buf, store, song_id, 1, None);
    let rv_opt = push_scores_block(&mut buf, store, song_id, 0, Some(rv));
    let nb_opt = push_scores_block(&mut buf, store, song_id, 2, Some(nb));
    push_str_chars(&mut buf, "<servertime>143</servertime></RESULTS>");
    proof {
        assert(rv_opt == Some(rv_val));
        assert(nb_opt == Some(nb_val));
        assert(buf@ =~= rides_body(*store, song_id, rv_val, nb_val));
    }
    Some(string_from_chars(&buf))
}

} // verus!
