//! Saved comparisons. The client keeps a capped, most-recent-first list
//! of favorites; this module holds the list logic: adding in front with
//! the cap enforced, and removing by id. Reading and writing the
//! browser's storage is the caller's business.

use vstd::prelude::*;
use crate::models::Favorite;

verus! {

/// The number of favorites kept: adding to a full list drops the
/// oldest.
pub const MAX_FAVORITES: usize = 10;

/// A favorite survives a removal of `id` when its own id differs.
pub open spec fn keeps_favorite(f: Favorite, id: Seq<char>) -> bool {
    f.id@ != id
}

/// The favorites list without every entry whose id is `id`.
pub open spec fn favorites_without(s: Seq<Favorite>, id: Seq<char>) -> Seq<Favorite> {
    s.filter(|f: Favorite| keeps_favorite(f, id))
}

proof fn lemma_favorites_without_take_succ(s: Seq<Favorite>, id: Seq<char>, i: int)
    requires
        0 <= i < s.len(),
    ensures
        favorites_without(s.take(i + 1), id) == favorites_without(s.take(i), id) + (
        if keeps_favorite(s[i], id) {
            seq![s[i]]
        } else {
            Seq::<Favorite>::empty()
        }),
{
    reveal(Seq::filter);
    assert(s.take(i + 1).drop_last() =~= s.take(i));
    assert(s.take(i + 1).last() == s[i]);
    if keeps_favorite(s[i], id) {
        assert(favorites_without(s.take(i + 1), id) =~= favorites_without(s.take(i), id) + seq![
            s[i],
        ]);
    } else {
        assert(favorites_without(s.take(i + 1), id) =~= favorites_without(s.take(i), id)
            + Seq::<Favorite>::empty());
    }
}

/// The favorites list operations.
pub struct StorageManager;

impl StorageManager {
    /// Adds a favorite in front and keeps at most `MAX_FAVORITES`
    /// entries: the result is the new entry followed by the old list,
    /// cut to the cap.
    pub fn add_favorite(favorites: Vec<Favorite>, favorite: Favorite) -> (r: Vec<Favorite>)
        ensures
            r@ == (seq![favorite] + favorites@).take(
                if favorites@.len() + 1 <= MAX_FAVORITES {
                    favorites@.len() as int + 1
                } else {
                    MAX_FAVORITES as int
                },
            ),
    {
        let ghost full = seq![favorite] + favorites@;
        let mut out = favorites;
        out.insert(0, favorite);
        proof {
            assert(out@ =~= full);
            assert(full.take(full.len() as int) =~= full);
        }
        while out.len() > MAX_FAVORITES
            invariant
                out@.len() <= full.len(),
                out@ == full.take(out@.len() as int),
                out@.len() >= MAX_FAVORITES as int || out@.len() == full.len(),
            decreases out@.len(),
        {
            let _ = out.pop();
            proof {
                assert(out@ =~= full.take(out@.len() as int));
            }
        }
        out
    }

    /// Removes every favorite whose id is `id`, keeping the order of
    /// the rest.
    pub fn remove_favorite(favorites: Vec<Favorite>, id: &str) -> (r: Vec<Favorite>)
        ensures
            r@ == favorites_without(favorites@, id@),
    {
        let ghost all = favorites@;
        let needle = id.to_owned();
        let mut rem = favorites;
        let mut out: Vec<Favorite> = Vec::new();
        let ghost mut i: int = 0;
        proof {
            reveal(Seq::filter);
            assert(all.take(0) =~= Seq::<Favorite>::empty());
            assert(out@ =~= favorites_without(all.take(0), id@));
            assert(rem@ =~= all.skip(0));
        }
        while rem.len() > 0
            invariant
                0 <= i <= all.len(),
                needle@ == id@,
                rem@ == all.skip(i),
                out@ == favorites_without(all.take(i), id@),
            decreases rem@.len(),
        {
            let f = rem.remove(0);
            proof {
                assert(all.skip(i)[0] == all[i]);
                assert(all.skip(i).remove(0) =~= all.skip(i + 1));
            }
            let keep = f.id != needle;
            proof {
                lemma_favorites_without_take_succ(all, id@, i);
            }
            if keep {
                out.push(f);
                proof {
                    assert(out@ =~= favorites_without(all.take(i), id@) + seq![all[i]]);
                }
            } else {
                proof {
                    assert(out@ =~= favorites_without(all.take(i), id@)
                        + Seq::<Favorite>::empty());
                }
            }
            proof {
                i = i + 1;
            }
        }
        proof {
            assert(all.skip(i).len() == 0);
            assert(i == all.len());
            assert(all.take(all.len() as int) =~= all);
        }
        out
    }
}

} // verus!
