//! The in-library half of the metadata enricher: the recording search
//! query, and the joining of artist credits.
//!
//! The network lookups live outside; what comes back is applied to the
//! store by the metadata module.

use vstd::prelude::*;
use crate::numbers::dec_str;
use crate::strings::{push_str_chars, string_from_chars};

verus! {

/// One artist credit of a recording: the name, and the join phrase that
/// links it to the next credit.
#[derive(Clone, Debug)]
pub struct ArtistCredit {
    pub name: String,
    pub joinphrase: Option<String>,
}

/// The credits concatenated with their join phrases, punctuation kept.
pub open spec fn joined_credits(credits: Seq<ArtistCredit>) -> Seq<char>
    decreases credits.len(),
{
    if credits.len() == 0 {
        Seq::empty()
    } else {
        joined_credits(credits.drop_last()) + credits.last().name@ + (
        match credits.last().joinphrase {
            Some(j) => j@,
            None => Seq::empty(),
        })
    }
}

/// Joins a recording's artist credits into one artist string.
#[verifier::loop_isolation(false)]
pub fn join_artist_credits(credits: &Vec<ArtistCredit>) -> (r: String)
    ensures
        r@ == joined_credits(credits@),
{
    let mut buf: Vec<char> = Vec::new();
    let mut i: usize = 0;
    while i < credits.len()
        invariant
            i <= credits@.len(),
            buf@ == joined_credits(credits@.take(i as int)),
        decreases credits@.len() - i,
    {
        let c = &credits[i];
        push_str_chars(&mut buf, c.name.as_str());
        match &c.joinphrase {
            Some(j) => {
                push_str_chars(&mut buf, j.as_str());
            },
            None => {},
        }
        proof {
            assert(credits@.take(i + 1).drop_last() =~= credits@.take(i as int));
            assert(credits@.take(i + 1).last() == credits@[i as int]);
            assert(buf@ =~= joined_credits(credits@.take(i + 1)));
        }
        i = i + 1;
    }
    proof {
        assert(credits@.take(credits@.len() as int) =~= credits@);
    }
    string_from_chars(&buf)
}

/// The recording search query for a song: match the title as recording
/// name or alias, the artist exactly, and the duration within six seconds
/// either way.
pub open spec fn search_query_text(title: Seq<char>, artist: Seq<char>, duration_ms: int) -> Seq<
    char,
> {
    "query=(recording:\""@ + title + "\" OR alias:\""@ + title + "\") AND artist:\""@ + artist
        + "\" AND dur:\"["@ + dec_str(duration_ms - 6000) + " TO "@ + dec_str(duration_ms + 6000)
        + "]\""@
}

/// Builds the recording search query.
pub fn search_query(title: &str, artist: &str, duration_ms: i64) -> (r: String)
    requires
        i64::MIN + 6000 <= duration_ms <= i64::MAX - 6000,
    ensures
        r@ == search_query_text(title@, artist@, duration_ms as int),
{
    let mut buf: Vec<char> = Vec::new();
    push_str_chars(&mut buf, "query=(recording:\"");
    push_str_chars(&mut buf, title);
    push_str_chars(&mut buf, "\" OR alias:\"");
    push_str_chars(&mut buf, title);
    push_str_chars(&mut buf, "\") AND artist:\"");
    push_str_chars(&mut buf, artist);
    push_str_chars(&mut buf, "\" AND dur:\"[");
    let lo = crate::numbers::i64_to_chars(duration_ms - 6000);
    let ghost mid1 = buf@;
    let mut k: usize = 0;
    while k < lo.len()
        invariant
            k <= lo@.len(),
            lo@ == dec_str(duration_ms - 6000),
            buf@ == mid1 + lo@.take(k as int),
        decreases lo@.len() - k,
    {
        buf.push(lo[k]);
        proof {
            assert(mid1 + lo@.take(k as int) + seq![lo@[k as int]] =~= mid1 + lo@.take(k + 1));
        }
        k = k + 1;
    }
    proof {
        assert(lo@.take(lo@.len() as int) =~= lo@);
    }
    push_str_chars(&mut buf, " TO ");
    let hi = crate::numbers::i64_to_chars(duration_ms + 6000);
    let ghost mid2 = buf@;
    let mut k2: usize = 0;
    while k2 < hi.len()
        invariant
            k2 <= hi@.len(),
            hi@ == dec_str(duration_ms + 6000),
            buf@ == mid2 + hi@.take(k2 as int),
        decreases hi@.len() - k2,
    {
        buf.push(hi[k2]);
        proof {
            assert(mid2 + hi@.take(k2 as int) + seq![hi@[k2 as int]] =~= mid2 + hi@.take(
                k2 + 1,
            ));
        }
        k2 = k2 + 1;
    }
    proof {
        assert(hi@.take(hi@.len() as int) =~= hi@);
    }
    push_str_chars(&mut buf, "]\"");
    proof {
        assert(buf@ =~= search_query_text(title@, artist@, duration_ms as int));
    }
    string_from_chars(&buf)
}

} // verus!
