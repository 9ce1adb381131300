//! The legacy endpoints' typed requests and responses, as the form decoder
//! hands them over and the XML layer takes them back.

use vstd::prelude::*;
use crate::numbers::dec_str;
use crate::strings::{push_str_chars, string_from_chars};

verus! {

/// The welcome-text request: only the session ticket.
#[derive(Clone, Debug)]
pub struct CustomNewsRequest {
    pub ticket: String,
}

/// The welcome text shown before a song.
#[derive(Clone, Debug)]
pub struct CustomNewsResponse {
    pub text: String,
}

/// The track-shape request: the ride id.
#[derive(Clone, Copy, Debug, PartialEq, Eq, Structural)]
pub struct GetShoutsRequest {
    pub ridd: i32,
}

/// The shout-feed request: the song id.
#[derive(Clone, Copy, Debug, PartialEq, Eq, Structural)]
pub struct FetchShoutsRequest {
    pub song_id: i32,
}

/// A posted shout: ticket, song and content.
#[derive(Clone, Debug)]
pub struct SendShoutRequest {
    pub ticket: String,
    pub song_id: i32,
    pub shout: String,
}

/// A Steam login request: the ticket and the client build string.
#[derive(Clone, Debug)]
pub struct LoginSteamRequest {
    pub ticket: String,
    pub client_version: String,
}

/// A Steam login's answer: the player row and the signed account number.
#[derive(Clone, Debug)]
pub struct LoginSteamResponse {
    pub status: String,
    pub user_id: i32,
    pub username: String,
    pub location_id: i32,
    pub steam_id: i32,
}

impl LoginSteamResponse {
    /// Renders the response in the login wire shape.
    pub fn render(&self) -> (r: String)
        ensures
            r@ == crate::wire::resp_login(
                self.user_id as int,
                self.username@,
                self.location_id as int,
                self.steam_id as int,
            ),
    {
        crate::wire::login_response(
            self.user_id,
            self.username.as_str(),
            self.location_id,
            self.steam_id,
        )
    }
}

/// A friends-sync request: the ticket and the x-separated account numbers.
#[derive(Clone, Debug)]
pub struct SteamSyncRequest {
    pub ticket: String,
    pub snums: String,
}

/// The found-of-listed status line of a friends sync.
#[derive(Clone, Debug)]
pub struct SteamSyncResponse {
    pub status: String,
}

/// The status text of a friends sync.
pub open spec fn sync_status_text(found: int, total: int) -> Seq<char> {
    "added "@ + dec_str(found) + " of "@ + dec_str(total) + " friends"@
}

impl SteamSyncResponse {
    /// Builds the status from the found-of-listed counts.
    pub fn new(found: i64, total: i64) -> (r: SteamSyncResponse)
        ensures
            r.status@ == sync_status_text(found as int, total as int),
    {
        let mut buf: Vec<char> = Vec::new();
        push_str_chars(&mut buf, "added ");
        let ds = crate::numbers::i64_to_chars(found);
        let mut k: usize = 0;
        while k < ds.len()
            invariant
                k <= ds@.len(),
                ds@ == dec_str(found as int),
                buf@ == "added "@ + ds@.take(k as int),
            decreases ds@.len() - k,
        {
            buf.push(ds[k]);
            proof {
                assert("added "@ + ds@.take(k as int) + seq![ds@[k as int]] =~= "added "@
                    + ds@.take(k + 1));
            }
            k = k + 1;
        }
        proof {
            assert(ds@.take(ds@.len() as int) =~= ds@);
        }
        push_str_chars(&mut buf, " of ");
        let ds2 = crate::numbers::i64_to_chars(total);
        let ghost mid = buf@;
        let mut k2: usize = 0;
        while k2 < ds2.len()
            invariant
                k2 <= ds2@.len(),
                ds2@ == dec_str(total as int),
                buf@ == mid + ds2@.take(k2 as int),
            decreases ds2@.len() - k2,
        {
            buf.push(ds2[k2]);
            proof {
                assert(mid + ds2@.take(k2 as int) + seq![ds2@[k2 as int]] =~= mid + ds2@.take(
                    k2 + 1,
                ));
            }
            k2 = k2 + 1;
        }
        proof {
            assert(ds2@.take(ds2@.len() as int) =~= ds2@);
        }
        push_str_chars(&mut buf, " friends");
        proof {
            assert(buf@ =~= sync_status_text(found as int, total as int));
        }
        SteamSyncResponse { status: string_from_chars(&buf) }
    }
}

} // verus!
