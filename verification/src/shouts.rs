//! Shouts: the comments players leave on songs, and their raw wire body.
//!
//! The shout feed renders newest first — in the model, reverse row order,
//! which is descending posting time as rows are appended chronologically.
//! A song with no shouts yet gets the protocol's invitation line. A shout
//! is deleted by its author or by staff.

use vstd::prelude::*;
use crate::models::{NewShout, Shout};
use crate::store::Store;
use crate::strings::{push_str_chars, string_from_chars};
use crate::wire::datetime_display_of;

verus! {

/// The shouts of a song, newest row first. Reverse row order stands for
/// descending posting time: the store only ever appends shouts, with the
/// wall clock, so later rows are later shouts.
pub open spec fn shouts_newest_first(shouts: Seq<Shout>, sid: int) -> Seq<Shout>
    decreases shouts.len(),
{
    if shouts.len() == 0 {
        Seq::empty()
    } else {
        (if shouts.last().song_id == sid {
            seq![shouts.last()]
        } else {
            Seq::empty()
        }) + shouts_newest_first(shouts.drop_last(), sid)
    }
}

/// One feed line: author, posting time, content, newline-terminated.
pub open spec fn shout_line(store: Store, s: Shout) -> Seq<char> {
    store.players@[store.player_index(s.author_id as int)].username@ + " (at "@
        + datetime_display_of(s.posted_at as int) + "): "@ + s.content@ + "\n"@
}

pub open spec fn shout_lines(store: Store, list: Seq<Shout>) -> Seq<char>
    decreases list.len(),
{
    if list.len() == 0 {
        Seq::empty()
    } else {
        shout_lines(store, list.drop_last()) + shout_line(store, list.last())
    }
}

/// The line shown for a song nobody has shouted on yet.
pub open spec fn shouts_placeholder() -> Seq<char> {
    "This song has no shouts yet. Let's change that!\n'Cause we're gonna shout it loud!"@
}

/// The raw body of the shout feed for a song.
pub open spec fn shouts_body(store: Store, sid: int) -> Seq<char> {
    let list = shouts_newest_first(store.shouts@, sid);
    if list.len() == 0 {
        shouts_placeholder()
    } else {
        shout_lines(store, list)
    }
}

/// Renders the shout feed of a song, newest first, or the invitation line
/// when it has none.
#[verifier::loop_isolation(false)]
pub fn shouts_response(store: &Store, song_id: i32) -> (r: String)
    requires
        store.wf(),
    ensures
        r@ == shouts_body(*store, song_id as int),
{
    let ghost full = shouts_newest_first(store.shouts@, song_id as int);
    let mut list: Vec<usize> = Vec::new();
    let n = store.shouts.len();
    let mut i: usize = n;
    proof {
        assert(store.shouts@.take(n as int) =~= store.shouts@);
        assert(list@.map_values(|x: usize| store.shouts@[x as int]) =~= Seq::<Shout>::empty());
    }
    while i > 0
        invariant
            i <= n == store.shouts@.len(),
            forall|k: int|
                0 <= k < list@.len() ==> (#[trigger] list@[k]) < store.shouts@.len(),
            shouts_newest_first(store.shouts@, song_id as int) == list@.map_values(
                |x: usize| store.shouts@[x as int],
            ) + shouts_newest_first(store.shouts@.take(i as int), song_id as int),
        decreases i,
    {
        i = i - 1;
        proof {
            assert(store.shouts@.take(i + 1).drop_last() =~= store.shouts@.take(i as int));
            assert(store.shouts@.take(i + 1).last() == store.shouts@[i as int]);
        }
        if store.shouts[i].song_id == song_id {
            let ghost before = list@;
            list.push(i);
            proof {
                assert(list@.map_values(|x: usize| store.shouts@[x as int]) =~= before.map_values(
                    |x: usize| store.shouts@[x as int],
                ).push(store.shouts@[i as int]));
                assert(shouts_newest_first(store.shouts@.take(i + 1), song_id as int)
                    =~= seq![store.shouts@[i as int]] + shouts_newest_first(
                    store.shouts@.take(i as int),
                    song_id as int,
                ));
                assert(before.map_values(|x: usize| store.shouts@[x as int])
                    + shouts_newest_first(store.shouts@.take(i + 1), song_id as int)
                    =~= list@.map_values(|x: usize| store.shouts@[x as int])
                    + shouts_newest_first(store.shouts@.take(i as int), song_id as int));
            }
        } else {
            proof {
                assert(shouts_newest_first(store.shouts@.take(i + 1), song_id as int)
                    =~= shouts_newest_first(store.shouts@.take(i as int), song_id as int));
            }
        }
    }
    proof {
        assert(store.shouts@.take(0) =~= Seq::<Shout>::empty());
        assert(shouts_newest_first(store.shouts@.take(0), song_id as int)
            =~= Seq::<Shout>::empty());
        assert(full =~= list@.map_values(|x: usize| store.shouts@[x as int]));
    }
    if list.len() == 0 {
        let mut buf: Vec<char> = Vec::new();
        push_str_chars(
            &mut buf,
            "This song has no shouts yet. Let's change that!\n'Cause we're gonna shout it loud!",
        );
        return string_from_chars(&buf);
    }
    let mut buf: Vec<char> = Vec::new();
    let mut j: usize = 0;
    while j < list.len()
        invariant
            j <= list@.len(),
            full == list@.map_values(|x: usize| store.shouts@[x as int]),
            forall|k: int|
                0 <= k < list@.len() ==> (#[trigger] list@[k]) < store.shouts@.len(),
            buf@ == shout_lines(*store, full.take(j as int)),
        decreases list@.len() - j,
    {
        let si = list[j];
        let s = &store.shouts[si];
        let author_idx = match store.find_player(s.author_id) {
            Some(w) => w,
            None => {
                proof {
                    assert(store.has_player_id(store.shouts@[si as int].author_id as int));
                    assert(false);
                }
                0
            },
        };
        proof {
            store.lemma_player_index_at(author_idx as int);
        }
        push_str_chars(&mut buf, store.players[author_idx].username.as_str());
        push_str_chars(&mut buf, " (at ");
        let ts = crate::wire::format_datetime(s.posted_at);
        push_str_chars(&mut buf, ts.as_str());
        push_str_chars(&mut buf, "): ");
        push_str_chars(&mut buf, s.content.as_str());
        push_str_chars(&mut buf, "\n");
        proof {
            assert(full.take(j + 1).drop_last() =~= full.take(j as int));
            assert(full.take(j + 1).last() == full[j as int]);
            assert(full[j as int] == store.shouts@[si as int]);
            assert(buf@ =~= shout_lines(*store, full.take(j + 1)));
        }
        j = j + 1;
    }
    proof {
        assert(full.take(full.len() as int) =~= full);
    }
    string_from_chars(&buf)
}

impl NewShout {
    /// Stores a shout on a song at the given time and returns its id.
    pub fn insert(&self, store: &mut Store, now: i64) -> (id: i32)
        requires
            old(store).wf(),
            old(store).has_song_id(self.song_id as int),
            old(store).has_player_id(self.author_id as int),
            old(store).next_shout_id < i32::MAX,
        ensures
            final(store).wf(),
            final(store).players@ == old(store).players@,
            final(store).songs@ == old(store).songs@,
            final(store).extra_infos@ == old(store).extra_infos@,
            final(store).scores@ == old(store).scores@,
            final(store).rivalries@ == old(store).rivalries@,
            final(store).leaderboard == old(store).leaderboard,
            final(store).shouts@.len() == old(store).shouts@.len() + 1,
            forall|k: int|
                0 <= k < old(store).shouts@.len() ==> final(store).shouts@[k] == old(
                    store,
                ).shouts@[k],
            ({
                let s = final(store).shouts@.last();
                &&& s.id == old(store).next_shout_id
                &&& s.song_id == self.song_id
                &&& s.author_id == self.author_id
                &&& s.posted_at == now
                &&& s.content@ == self.content@
            }),
            id == old(store).next_shout_id,
    {
        let id = store.next_shout_id;
        let ghost pre = *store;
        store.shouts.push(
            Shout {
                id,
                song_id: self.song_id,
                author_id: self.author_id,
                posted_at: now,
                content: self.content.clone(),
            },
        );
        store.next_shout_id = id + 1;
        proof {
            let n = store.shouts@.len() - 1;
            assert(store.shouts_wf()) by {
                assert forall|x: int, y: int|
                    0 <= x < y < store.shouts@.len() implies (#[trigger] store.shouts@[x]).id != (
                #[trigger] store.shouts@[y]).id by {
                    if y == n {
                        assert(pre.shouts@[x].id < pre.next_shout_id);
                    }
                }
                assert forall|x: int| 0 <= x < store.shouts@.len() implies store.has_song_id(
                    (#[trigger] store.shouts@[x]).song_id as int,
                ) && store.has_player_id(store.shouts@[x].author_id as int) by {
                    if x < n {
                        assert(pre.has_song_id(pre.shouts@[x].song_id as int));
                        assert(pre.has_player_id(pre.shouts@[x].author_id as int));
                    } else {
                        assert(pre.has_song_id(self.song_id as int));
                        assert(pre.has_player_id(self.author_id as int));
                    }
                    let v = choose|v: int|
                        0 <= v < pre.songs@.len() && (#[trigger] pre.songs@[v]).id
                            == store.shouts@[x].song_id;
                    assert(store.songs@[v].id == store.shouts@[x].song_id);
                    let w = choose|w: int|
                        0 <= w < pre.players@.len() && (#[trigger] pre.players@[w]).id
                            == store.shouts@[x].author_id;
                    assert(store.players@[w].id == store.shouts@[x].author_id);
                }
            }
        }
        id
    }
}

/// Why a shout deletion was refused.
#[derive(Clone, Copy, Debug, PartialEq, Eq, Structural)]
pub enum DeleteShoutError {
    NotFound,
    Unauthorized,
}

/// May this player delete this shout: its author, or staff?
pub open spec fn can_delete_shout(store: Store, s: Shout, actor: int) -> bool {
    s.author_id == actor || store.players@[store.player_index(actor)].account_type
        == crate::game_types::AccountType::Moderator || store.players@[store.player_index(
        actor,
    )].account_type == crate::game_types::AccountType::Team
}

/// Deletes a shout by id, allowed to its author and to staff.
pub fn delete_shout(store: &mut Store, shout_id: i32, actor_id: i32) -> (r: Result<
    (),
    DeleteShoutError,
>)
    requires
        old(store).wf(),
        old(store).has_player_id(actor_id as int),
    ensures
        final(store).wf(),
        final(store).players@ == old(store).players@,
        final(store).songs@ == old(store).songs@,
        final(store).extra_infos@ == old(store).extra_infos@,
        final(store).scores@ == old(store).scores@,
        final(store).rivalries@ == old(store).rivalries@,
        final(store).leaderboard == old(store).leaderboard,
        (r matches Err(e) && e == DeleteShoutError::NotFound) <==> !old(store).has_shout_id(
            shout_id as int,
        ),
        r is Err ==> final(store).shouts@ == old(store).shouts@,
        ({
            let si = old(store).shout_index(shout_id as int);
            &&& (r matches Err(e) && e == DeleteShoutError::Unauthorized) <==> (old(
                store,
            ).has_shout_id(shout_id as int) && !can_delete_shout(
                *old(store),
                old(store).shouts@[si],
                actor_id as int,
            ))
            &&& r is Ok ==> final(store).shouts@ == old(store).shouts@.remove(si)
        }),
{
    let i = match store.find_shout(shout_id) {
        Some(i) => i,
        None => {
            return Err(DeleteShoutError::NotFound);
        },
    };
    proof {
        store.lemma_shout_index_at(i as int);
    }
    let actor_idx = match store.find_player(actor_id) {
        Some(w) => w,
        None => {
            proof {
                assert(false);
            }
            0
        },
    };
    proof {
        store.lemma_player_index_at(actor_idx as int);
    }
    let allowed = store.shouts[i].author_id == actor_id || store.players[actor_idx]
        .account_type
        .is_staff();
    if !allowed {
        return Err(DeleteShoutError::Unauthorized);
    }
    let ghost pre = *store;
    store.shouts.remove(i);
    proof {
        assert(store.shouts@ =~= pre.shouts@.remove(i as int));
        assert(store.shouts_wf()) by {
            assert forall|x: int| 0 <= x < store.shouts@.len() implies store.has_song_id(
                (#[trigger] store.shouts@[x]).song_id as int,
            ) && store.has_player_id(store.shouts@[x].author_id as int) by {
                let src = if x < i as int {
                    x
                } else {
                    x + 1
                };
                assert(store.shouts@[x] == pre.shouts@[src]);
                assert(pre.has_song_id(pre.shouts@[src].song_id as int));
                assert(pre.has_player_id(pre.shouts@[src].author_id as int));
                let v = choose|v: int|
                    0 <= v < pre.songs@.len() && (#[trigger] pre.songs@[v]).id
                        == store.shouts@[x].song_id;
                assert(store.songs@[v].id == store.shouts@[x].song_id);
                let w = choose|w: int|
                    0 <= w < pre.players@.len() && (#[trigger] pre.players@[w]).id
                        == store.shouts@[x].author_id;
                assert(store.players@[w].id == store.shouts@[x].author_id);
            }
        }
    }
    Ok(())
}

impl Store {
    /// The index of the shout with this id. Meaningful only where
    /// `has_shout_id` holds.
    pub open spec fn shout_index(self, id: int) -> int {
        choose|i: int| 0 <= i < self.shouts@.len() && (#[trigger] self.shouts@[i]).id == id
    }

    /// In a well-formed store, any index holding the shout id is
    /// `shout_index`.
    pub proof fn lemma_shout_index_at(self, i: int)
        requires
            self.shouts_wf(),
            0 <= i < self.shouts@.len(),
        ensures
            self.has_shout_id(self.shouts@[i].id as int),
            self.shout_index(self.shouts@[i].id as int) == i,
    {
        let id = self.shouts@[i].id as int;
        assert(self.has_shout_id(id));
        let j = self.shout_index(id);
        if i < j {
            assert(self.shouts@[i].id != self.shouts@[j].id);
        } else if j < i {
            assert(self.shouts@[j].id != self.shouts@[i].id);
        }
    }
}

} // verus!
