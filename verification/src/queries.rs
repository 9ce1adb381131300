//! The score search behind the JSON surface: filters, the optional time
//! and score orderings, and offset/limit paging.
//!
//! Rows are keyed for sorting by their submission time, points, id and
//! table position; the id and position tie-breaks make the order total, so
//! a page is pinned exactly.

use vstd::prelude::*;
use vstd::relations::{sorted_by, total_ordering};
use vstd::multiset::Multiset;
use vstd::seq_lib::{lemma_multiset_commutative, lemma_sorted_unique};
use crate::game_types::{Character, League, SortType};
use crate::models::Score;
use crate::store::Store;

verus! {

/// The sort key of one score row, with its table position.
#[derive(Clone, Copy, Debug, PartialEq, Eq, Structural)]
pub struct ScoreRef {
    pub submitted_at: i64,
    pub score: i32,
    pub id: i32,
    pub idx: usize,
}

/// The search filters: each one narrows when present.
#[derive(Clone, Debug)]
pub struct ScoreFilter {
    pub league: Option<League>,
    pub character: Option<Character>,
    pub player_id: Option<i32>,
    pub song_id: Option<i32>,
    /// Restrict to these players — the rival search.
    pub player_ids: Option<Vec<i32>>,
}

pub open spec fn matches_filter(s: Score, f: ScoreFilter) -> bool {
    &&& (match f.league {
        Some(l) => s.league == l,
        None => true,
    })
    &&& (match f.character {
        Some(c) => s.vehicle == c,
        None => true,
    })
    &&& (match f.player_id {
        Some(p) => s.player_id == p,
        None => true,
    })
    &&& (match f.song_id {
        Some(sid) => s.song_id == sid,
        None => true,
    })
    &&& (match f.player_ids {
        Some(v) => v@.contains(s.player_id),
        None => true,
    })
}

pub open spec fn ref_of(s: Score, idx: int) -> ScoreRef {
    ScoreRef { submitted_at: s.submitted_at, score: s.score, id: s.id, idx: idx as usize }
}

/// The keys of the rows that pass the filter, in table order.
pub open spec fn filtered_refs(ss: Seq<Score>, f: ScoreFilter) -> Seq<ScoreRef>
    decreases ss.len(),
{
    if ss.len() == 0 {
        Seq::empty()
    } else {
        filtered_refs(ss.drop_last(), f) + (if matches_filter(ss.last(), f) {
            seq![ref_of(ss.last(), ss.len() - 1)]
        } else {
            Seq::empty()
        })
    }
}

/// Is `a` strictly earlier than `b` under the optional time ordering?
pub open spec fn time_lt(ts: Option<SortType>, a: ScoreRef, b: ScoreRef) -> bool {
    match ts {
        Some(SortType::Asc) => a.submitted_at < b.submitted_at,
        Some(SortType::Desc) => a.submitted_at > b.submitted_at,
        None => false,
    }
}

pub open spec fn time_eq(ts: Option<SortType>, a: ScoreRef, b: ScoreRef) -> bool {
    match ts {
        Some(t) => a.submitted_at == b.submitted_at,
        None => true,
    }
}

/// Is `a` strictly earlier than `b` under the optional score ordering?
pub open spec fn points_lt(ss: Option<SortType>, a: ScoreRef, b: ScoreRef) -> bool {
    match ss {
        Some(SortType::Asc) => a.score < b.score,
        Some(SortType::Desc) => a.score > b.score,
        None => false,
    }
}

pub open spec fn points_eq(ss: Option<SortType>, a: ScoreRef, b: ScoreRef) -> bool {
    match ss {
        Some(t) => a.score == b.score,
        None => true,
    }
}

/// The deterministic tail of the order: id, position, then the raw fields.
pub open spec fn tail_leq(a: ScoreRef, b: ScoreRef) -> bool {
    ||| a.id < b.id
    ||| (a.id == b.id && (a.idx < b.idx || (a.idx == b.idx && (a.submitted_at < b.submitted_at
        || (a.submitted_at == b.submitted_at && a.score <= b.score)))))
}

/// Does `a` come no later than `b`: the requested time ordering first, then
/// the requested score ordering, then the deterministic tail.
pub open spec fn score_leq(ts: Option<SortType>, ss: Option<SortType>, a: ScoreRef, b: ScoreRef) -> bool {
    ||| time_lt(ts, a, b)
    ||| (time_eq(ts, a, b) && (points_lt(ss, a, b) || (points_eq(ss, a, b) && tail_leq(a, b))))
}

pub open spec fn score_ord(ts: Option<SortType>, ss: Option<SortType>) -> spec_fn(
    ScoreRef,
    ScoreRef,
) -> bool {
    |a: ScoreRef, b: ScoreRef| score_leq(ts, ss, a, b)
}

/// The search order is a total order on row keys.
pub proof fn lemma_score_ord_total(ts: Option<SortType>, ss: Option<SortType>)
    ensures
        total_ordering(score_ord(ts, ss)),
{
}

fn sort_type_eq(a: &Option<SortType>, b: SortType) -> (r: bool)
    ensures
        r == (*a == Some(b)),
{
    match a {
        Some(x) => *x == b,
        None => false,
    }
}

fn score_leq_exec(ts: &Option<SortType>, ss: &Option<SortType>, a: ScoreRef, b: ScoreRef) -> (r:
    bool)
    ensures
        r == score_leq(*ts, *ss, a, b),
{
    let t_lt = if sort_type_eq(ts, SortType::Asc) {
        a.submitted_at < b.submitted_at
    } else if sort_type_eq(ts, SortType::Desc) {
        a.submitted_at > b.submitted_at
    } else {
        false
    };
    let t_eq = match ts {
        Some(_) => a.submitted_at == b.submitted_at,
        None => true,
    };
    let p_lt = if sort_type_eq(ss, SortType::Asc) {
        a.score < b.score
    } else if sort_type_eq(ss, SortType::Desc) {
        a.score > b.score
    } else {
        false
    };
    let p_eq = match ss {
        Some(_) => a.score == b.score,
        None => true,
    };
    let tail = a.id < b.id || (a.id == b.id && (a.idx < b.idx || (a.idx == b.idx && (
    a.submitted_at < b.submitted_at || (a.submitted_at == b.submitted_at && a.score
        <= b.score)))));
    t_lt || (t_eq && (p_lt || (p_eq && tail)))
}

fn matches_filter_exec(s: &Score, f: &ScoreFilter) -> (r: bool)
    ensures
        r == matches_filter(*s, *f),
{
    let league_ok = match &f.league {
        Some(l) => s.league == *l,
        None => true,
    };
    let character_ok = match &f.character {
        Some(c) => s.vehicle == *c,
        None => true,
    };
    let player_ok = match &f.player_id {
        Some(p) => s.player_id == *p,
        None => true,
    };
    let song_ok = match &f.song_id {
        Some(sid) => s.song_id == *sid,
        None => true,
    };
    let set_ok = match &f.player_ids {
        Some(v) => crate::users::contains_i32(v, s.player_id),
        None => true,
    };
    league_ok && character_ok && player_ok && song_ok && set_ok
}

/// Searches the score table: the rows that pass the filter, in the
/// requested order, one page of them — plus the total number of matches.
#[verifier::loop_isolation(false)]
#[verifier::rlimit(60)]
pub fn score_search(
    store: &Store,
    filter: &ScoreFilter,
    time_sort: Option<SortType>,
    score_sort: Option<SortType>,
    offset: usize,
    limit: usize,
) -> (r: (Vec<ScoreRef>, usize))
    ensures
        r.1 as int == filtered_refs(store.scores@, *filter).len(),
        ({
            let sorted = filtered_refs(store.scores@, *filter).sort_by(
                score_ord(time_sort, score_sort),
            );
            let lo = if offset as int <= sorted.len() {
                offset as int
            } else {
                sorted.len() as int
            };
            let hi = if offset + limit <= sorted.len() {
                offset + limit
            } else {
                sorted.len() as int
            };
            r.0@ == sorted.subrange(lo, hi)
        }),
        forall|k: int| 0 <= k < r.0@.len() ==> (#[trigger] r.0@[k]).idx < store.scores@.len(),
{
    let ord = Ghost(score_ord(time_sort, score_sort));
    let mut refs: Vec<ScoreRef> = Vec::new();
    let mut i: usize = 0;
    proof {
        assert(refs@ =~= filtered_refs(store.scores@.take(0), *filter));
    }
    while i < store.scores.len()
        invariant
            i <= store.scores@.len(),
            refs@ == filtered_refs(store.scores@.take(i as int), *filter),
            forall|k: int| 0 <= k < refs@.len() ==> (#[trigger] refs@[k]).idx < i,
        decreases store.scores@.len() - i,
    {
        proof {
            assert(store.scores@.take(i + 1).drop_last() =~= store.scores@.take(i as int));
            assert(store.scores@.take(i + 1).last() == store.scores@[i as int]);
        }
        let s = &store.scores[i];
        if matches_filter_exec(s, filter) {
            refs.push(ScoreRef { submitted_at: s.submitted_at, score: s.score, id: s.id, idx: i });
            proof {
                assert(refs@ =~= filtered_refs(store.scores@.take(i + 1), *filter));
            }
        } else {
            proof {
                assert(refs@ =~= filtered_refs(store.scores@.take(i + 1), *filter));
            }
        }
        i = i + 1;
    }
    proof {
        assert(store.scores@.take(store.scores@.len() as int) =~= store.scores@);
    }
    let total = refs.len();
    // insertion sort into the requested order
    let mut out: Vec<ScoreRef> = Vec::new();
    proof {
        assert(out@.to_multiset() =~= refs@.take(0).to_multiset()) by {
            assert(out@ =~= refs@.take(0));
        }
    }
    let mut j: usize = 0;
    while j < refs.len()
        invariant
            j <= refs@.len(),
            out@.len() == j,
            sorted_by(out@, ord@),
            out@.to_multiset() == refs@.take(j as int).to_multiset(),
            forall|k: int| 0 <= k < out@.len() ==> (#[trigger] out@[k]).idx
                < store.scores@.len(),
            forall|k: int| 0 <= k < refs@.len() ==> (#[trigger] refs@[k]).idx
                < store.scores@.len(),
        decreases refs@.len() - j,
    {
        let e = refs[j];
        let mut p: usize = 0;
        while p < out.len() && !score_leq_exec(&time_sort, &score_sort, e, out[p])
            invariant
                p <= out@.len(),
                forall|k: int| 0 <= k < p ==> !(ord@(e, #[trigger] out@[k])),
            decreases out@.len() - p,
        {
            p = p + 1;
        }
        let ghost before = out@;
        out.insert(p, e);
        proof {
            lemma_score_ord_total(time_sort, score_sort);
            assert(out@ =~= before.take(p as int) + seq![e] + before.skip(p as int));
            assert(sorted_by(out@, ord@)) by {
                assert forall|x: int, y: int| 0 <= x < y < out@.len() implies ord@(
                    out@[x],
                    out@[y],
                ) by {
                    if y < p {
                        assert(out@[x] == before[x] && out@[y] == before[y]);
                    } else if x < p && y == p {
                        assert(out@[x] == before[x]);
                        assert(!ord@(e, before[x]));
                    } else if x == p && y > p {
                        assert(out@[y] == before[y - 1]);
                        assert(p < before.len() + 1 && y - 1 >= p);
                        assert(ord@(e, before[p as int]));
                        assert(ord@(before[p as int], before[y - 1]) || p as int == y - 1);
                    } else if x < p && y > p {
                        assert(out@[x] == before[x] && out@[y] == before[y - 1]);
                        assert(!ord@(e, before[x]));
                        assert(ord@(e, before[p as int]));
                        assert(ord@(before[p as int], before[y - 1]) || p as int == y - 1);
                    } else {
                        assert(x > p && y > p);
                        assert(out@[x] == before[x - 1] && out@[y] == before[y - 1]);
                    }
                }
            }
            assert(out@.to_multiset() == refs@.take(j + 1).to_multiset()) by {
                broadcast use vstd::seq_lib::group_to_multiset_ensures;

                lemma_multiset_commutative(before.take(p as int) + seq![e], before.skip(
                    p as int,
                ));
                lemma_multiset_commutative(before.take(p as int), seq![e]);
                lemma_multiset_commutative(before.take(p as int), before.skip(p as int));
                assert(before.take(p as int) + before.skip(p as int) =~= before);
                assert(seq![e].to_multiset() =~= Multiset::empty().insert(e)) by {
                    assert(seq![e].drop_last() =~= Seq::<ScoreRef>::empty());
                }
                assert(refs@.take(j + 1).drop_last() =~= refs@.take(j as int));
                assert(refs@.take(j + 1) =~= refs@.take(j as int).push(e));
            }
        }
        j = j + 1;
    }
    proof {
        assert(refs@.take(refs@.len() as int) =~= refs@);
        lemma_score_ord_total(time_sort, score_sort);
        refs@.lemma_sort_by_ensures(ord@);
        lemma_sorted_unique(out@, refs@.sort_by(ord@), ord@);
    }
    // one page of the sorted rows
    let lo = if offset <= out.len() {
        offset
    } else {
        out.len()
    };
    let mut page: Vec<ScoreRef> = Vec::new();
    let mut q: usize = lo;
    while q < out.len() && q - lo < limit
        invariant
            lo <= q <= out@.len(),
            q - lo <= limit,
            out@ == refs@.sort_by(ord@),
            page@ == out@.subrange(lo as int, q as int),
            forall|k: int| 0 <= k < out@.len() ==> (#[trigger] out@[k]).idx
                < store.scores@.len(),
        decreases out@.len() - q,
    {
        page.push(out[q]);
        proof {
            assert(out@.subrange(lo as int, q as int).push(out@[q as int]) =~= out@.subrange(
                lo as int,
                q + 1,
            ));
        }
        q = q + 1;
    }
    proof {
        let sorted = refs@.sort_by(ord@);
        let hi = if offset + limit <= sorted.len() {
            offset + limit
        } else {
            sorted.len() as int
        };
        assert(q as int == hi || (q == sorted.len() && q - lo < limit));
        assert(page@ =~= sorted.subrange(lo as int, hi));
    }
    (page, total)
}

/// How many score rows a song has — its play ranking count.
pub open spec fn song_score_count(ss: Seq<Score>, sid: int) -> int
    decreases ss.len(),
{
    if ss.len() == 0 {
        0
    } else {
        song_score_count(ss.drop_last(), sid) + if ss.last().song_id == sid {
            1int
        } else {
            0int
        }
    }
}

/// A song's ranking key: its score count, id and table position.
#[derive(Clone, Copy, Debug, PartialEq, Eq, Structural)]
pub struct SongRank {
    pub times_played: usize,
    pub id: i32,
    pub idx: usize,
}

/// Does `a` rank no lower than `b`: more plays first, ties by ascending
/// song id, then table position.
pub open spec fn rank_leq(a: SongRank, b: SongRank) -> bool {
    ||| a.times_played > b.times_played
    ||| (a.times_played == b.times_played && (a.id < b.id || (a.id == b.id && a.idx <= b.idx)))
}

pub open spec fn rank_ord() -> spec_fn(SongRank, SongRank) -> bool {
    |a: SongRank, b: SongRank| rank_leq(a, b)
}

/// Song ranking order is a total order.
pub proof fn lemma_rank_ord_total()
    ensures
        total_ordering(rank_ord()),
{
}

/// The ranking keys of all songs, in table order.
pub open spec fn song_ranks(store: Store) -> Seq<SongRank> {
    Seq::new(
        store.songs@.len(),
        |i: int|
            SongRank {
                times_played: song_score_count(store.scores@, store.songs@[i].id as int) as usize,
                id: store.songs@[i].id,
                idx: i as usize,
            },
    )
}

fn rank_leq_exec(a: SongRank, b: SongRank) -> (r: bool)
    ensures
        r == rank_leq(a, b),
{
    a.times_played > b.times_played || (a.times_played == b.times_played && (a.id < b.id || (
    a.id == b.id && a.idx <= b.idx)))
}

#[verifier::loop_isolation(false)]
fn count_song_scores(store: &Store, sid: i32) -> (r: usize)
    ensures
        r as int == song_score_count(store.scores@, sid as int),
{
    let mut c: usize = 0;
    let mut i: usize = 0;
    while i < store.scores.len()
        invariant
            i <= store.scores@.len(),
            c <= i,
            c as int == song_score_count(store.scores@.take(i as int), sid as int),
        decreases store.scores@.len() - i,
    {
        proof {
            assert(store.scores@.take(i + 1).drop_last() =~= store.scores@.take(i as int));
            assert(store.scores@.take(i + 1).last() == store.scores@[i as int]);
        }
        if store.scores[i].song_id == sid {
            c = c + 1;
        }
        i = i + 1;
    }
    proof {
        assert(store.scores@.take(store.scores@.len() as int) =~= store.scores@);
    }
    c
}

/// The global most-played ranking: every song keyed by how many score rows
/// it has, most played first, one page of them.
#[verifier::loop_isolation(false)]
#[verifier::rlimit(60)]
pub fn top_songs(store: &Store, offset: usize, limit: usize) -> (r: Vec<SongRank>)
    ensures
        ({
            let sorted = song_ranks(*store).sort_by(rank_ord());
            let lo = if offset as int <= sorted.len() {
                offset as int
            } else {
                sorted.len() as int
            };
            let hi = if offset + limit <= sorted.len() {
                offset + limit
            } else {
                sorted.len() as int
            };
            r@ == sorted.subrange(lo, hi)
        }),
        forall|k: int| 0 <= k < r@.len() ==> (#[trigger] r@[k]).idx < store.songs@.len(),
{
    let ord = Ghost(rank_ord());
    let ghost ranks = song_ranks(*store);
    let mut out: Vec<SongRank> = Vec::new();
    proof {
        assert(out@.to_multiset() =~= ranks.take(0).to_multiset()) by {
            assert(out@ =~= ranks.take(0));
        }
    }
    let mut i: usize = 0;
    while i < store.songs.len()
        invariant
            i <= store.songs@.len(),
            ranks == song_ranks(*store),
            ranks.len() == store.songs@.len(),
            out@.len() == i,
            sorted_by(out@, ord@),
            out@.to_multiset() == ranks.take(i as int).to_multiset(),
            forall|k: int| 0 <= k < out@.len() ==> (#[trigger] out@[k]).idx
                < store.songs@.len(),
        decreases store.songs@.len() - i,
    {
        let c = count_song_scores(store, store.songs[i].id);
        let e = SongRank { times_played: c, id: store.songs[i].id, idx: i };
        proof {
            assert(e == ranks[i as int]);
        }
        let mut p: usize = 0;
        while p < out.len() && !rank_leq_exec(e, out[p])
            invariant
                p <= out@.len(),
                forall|k: int| 0 <= k < p ==> !(ord@(e, #[trigger] out@[k])),
            decreases out@.len() - p,
        {
            p = p + 1;
        }
        let ghost before = out@;
        out.insert(p, e);
        proof {
            lemma_rank_ord_total();
            assert(out@ =~= before.take(p as int) + seq![e] + before.skip(p as int));
            assert(sorted_by(out@, ord@)) by {
                assert forall|x: int, y: int| 0 <= x < y < out@.len() implies ord@(
                    out@[x],
                    out@[y],
                ) by {
                    if y < p {
                        assert(out@[x] == before[x] && out@[y] == before[y]);
                    } else if x < p && y == p {
                        assert(out@[x] == before[x]);
                        assert(!ord@(e, before[x]));
                    } else if x == p && y > p {
                        assert(out@[y] == before[y - 1]);
                        assert(ord@(e, before[p as int]));
                        assert(ord@(before[p as int], before[y - 1]) || p as int == y - 1);
                    } else if x < p && y > p {
                        assert(out@[x] == before[x] && out@[y] == before[y - 1]);
                        assert(!ord@(e, before[x]));
                        assert(ord@(e, before[p as int]));
                        assert(ord@(before[p as int], before[y - 1]) || p as int == y - 1);
                    } else {
                        assert(x > p && y > p);
                        assert(out@[x] == before[x - 1] && out@[y] == before[y - 1]);
                    }
                }
            }
            assert(out@.to_multiset() == ranks.take(i + 1).to_multiset()) by {
                broadcast use vstd::seq_lib::group_to_multiset_ensures;

                lemma_multiset_commutative(before.take(p as int) + seq![e], before.skip(
                    p as int,
                ));
                lemma_multiset_commutative(before.take(p as int), seq![e]);
                lemma_multiset_commutative(before.take(p as int), before.skip(p as int));
                assert(before.take(p as int) + before.skip(p as int) =~= before);
                assert(seq![e].to_multiset() =~= Multiset::empty().insert(e)) by {
                    assert(seq![e].drop_last() =~= Seq::<SongRank>::empty());
                }
                assert(ranks.take(i + 1).drop_last() =~= ranks.take(i as int));
                assert(ranks.take(i + 1) =~= ranks.take(i as int).push(e));
            }
        }
        i = i + 1;
    }
    proof {
        assert(ranks.take(ranks.len() as int) =~= ranks);
        lemma_rank_ord_total();
        ranks.lemma_sort_by_ensures(ord@);
        lemma_sorted_unique(out@, ranks.sort_by(ord@), ord@);
    }
    let lo = if offset <= out.len() {
        offset
    } else {
        out.len()
    };
    let mut page: Vec<SongRank> = Vec::new();
    let mut q: usize = lo;
    while q < out.len() && q - lo < limit
        invariant
            lo <= q <= out@.len(),
            q - lo <= limit,
            out@ == song_ranks(*store).sort_by(rank_ord()),
            page@ == out@.subrange(lo as int, q as int),
            forall|k: int| 0 <= k < out@.len() ==> (#[trigger] out@[k]).idx
                < store.songs@.len(),
        decreases out@.len() - q,
    {
        page.push(out[q]);
        proof {
            assert(out@.subrange(lo as int, q as int).push(out@[q as int]) =~= out@.subrange(
                lo as int,
                q + 1,
            ));
        }
        q = q + 1;
    }
    proof {
        let sorted = song_ranks(*store).sort_by(rank_ord());
        let hi = if offset + limit <= sorted.len() {
            offset + limit
        } else {
            sorted.len() as int
        };
        assert(q as int == hi || (q == sorted.len() && q - lo < limit));
        assert(page@ =~= sorted.subrange(lo as int, hi));
    }
    page
}

} // verus!
