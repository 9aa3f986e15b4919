//! Ordering of series points. Years arrive as fixed-width digit strings,
//! so the ascending order of a series is the lexicographic order of the
//! year texts; this module defines that order, proves it total and
//! transitive, and sorts point lists by it.

use vstd::prelude::*;
use vstd::multiset::Multiset;
use vstd::string::StrSliceExecFns;
use crate::models::{DataPoint, DataPointV};

verus! {

/// Lexicographic order on character sequences, by code point.
pub open spec fn lex_le(a: Seq<char>, b: Seq<char>) -> bool
    decreases a.len(),
{
    if a.len() == 0 {
        true
    } else if b.len() == 0 {
        false
    } else if a[0] == b[0] {
        lex_le(a.drop_first(), b.drop_first())
    } else {
        (a[0] as u32) < (b[0] as u32)
    }
}

/// Any two sequences compare in at least one direction.
pub proof fn lemma_lex_le_total(a: Seq<char>, b: Seq<char>)
    ensures
        lex_le(a, b) || lex_le(b, a),
    decreases a.len(),
{
    if a.len() > 0 && b.len() > 0 {
        if a[0] == b[0] {
            lemma_lex_le_total(a.drop_first(), b.drop_first());
        } else {
            // distinct characters have distinct code points
            vstd::utf8::char_u32_cast(a[0], a[0] as u32);
            vstd::utf8::char_u32_cast(b[0], b[0] as u32);
        }
    }
}

/// The order is transitive.
pub proof fn lemma_lex_le_trans(a: Seq<char>, b: Seq<char>, c: Seq<char>)
    requires
        lex_le(a, b),
        lex_le(b, c),
    ensures
        lex_le(a, c),
    decreases a.len(),
{
    if a.len() > 0 && b.len() > 0 && c.len() > 0 && a[0] == b[0] && b[0] == c[0] {
        lemma_lex_le_trans(a.drop_first(), b.drop_first(), c.drop_first());
    }
}

/// Comparing sequences that agree on their first `i` characters is
/// comparing what remains after them.
proof fn lemma_lex_le_skip(a: Seq<char>, b: Seq<char>, i: int)
    requires
        0 <= i <= a.len(),
        i <= b.len(),
        forall|k: int| 0 <= k < i ==> a[k] == b[k],
    ensures
        lex_le(a, b) == lex_le(a.skip(i), b.skip(i)),
    decreases i,
{
    if i > 0 {
        lemma_lex_le_skip(a.drop_first(), b.drop_first(), i - 1);
        assert(a.drop_first().skip(i - 1) =~= a.skip(i));
        assert(b.drop_first().skip(i - 1) =~= b.skip(i));
    } else {
        assert(a.skip(0) =~= a);
        assert(b.skip(0) =~= b);
    }
}

/// Decides `lex_le` on two strings.
pub fn str_lex_le(a: &str, b: &str) -> (r: bool)
    ensures
        r == lex_le(a@, b@),
{
    let la = a.unicode_len();
    let lb = b.unicode_len();
    let mut i: usize = 0;
    loop
        invariant
            i <= la,
            i <= lb,
            la == a@.len(),
            lb == b@.len(),
            forall|k: int| 0 <= k < i ==> a@[k] == b@[k],
        decreases la - i,
    {
        proof {
            lemma_lex_le_skip(a@, b@, i as int);
        }
        if i == la {
            return true;
        }
        if i == lb {
            assert(a@.skip(i as int).len() > 0);
            return false;
        }
        let ca = a.get_char(i);
        let cb = b.get_char(i);
        if ca == cb {
            i = i + 1;
        } else {
            assert(a@.skip(i as int)[0] == a@[i as int]);
            assert(b@.skip(i as int)[0] == b@[i as int]);
            return (ca as u32) < (cb as u32);
        }
    }
}

/// The image of a point list.
pub open spec fn pts_view(s: Seq<DataPoint>) -> Seq<DataPointV> {
    s.map_values(|p: DataPoint| p@)
}

/// Ascending by year, in the lexicographic order.
pub open spec fn sorted_by_year(s: Seq<DataPointV>) -> bool {
    forall|i: int, j: int| 0 <= i < j < s.len() ==> lex_le(s[i].year, s[j].year)
}

/// Inserts a point into a sorted list, keeping it sorted; the contents
/// grow by exactly the new point.
fn insert_sorted(out: &mut Vec<DataPoint>, p: DataPoint)
    requires
        sorted_by_year(pts_view(old(out)@)),
    ensures
        sorted_by_year(pts_view(final(out)@)),
        pts_view(final(out)@).to_multiset() == pts_view(old(out)@).to_multiset().insert(p@),
        final(out)@.len() == old(out)@.len() + 1,
{
    let ghost orig = out@;
    let mut idx: usize = 0;
    while idx < out.len() && str_lex_le(out[idx].year.as_str(), p.year.as_str())
        invariant
            idx <= out@.len(),
            out@ == orig,
            sorted_by_year(pts_view(orig)),
            forall|k: int| 0 <= k < idx ==> lex_le(pts_view(out@)[k].year, p@.year),
        decreases out@.len() - idx,
    {
        assert(pts_view(out@)[idx as int].year == out@[idx as int].year@);
        idx = idx + 1;
    }
    proof {
        if (idx as int) < orig.len() {
            assert(pts_view(orig)[idx as int].year == orig[idx as int].year@);
            lemma_lex_le_total(orig[idx as int].year@, p.year@);
            assert(lex_le(p@.year, pts_view(orig)[idx as int].year));
        }
    }
    out.insert(idx, p);
    proof {
        let pv = pts_view(out@);
        let prev = pts_view(orig);
        orig.insert_ensures(idx as int, p);
        assert(forall|k: int| 0 <= k < idx ==> pv[k] == prev[k]);
        assert(pv[idx as int] == p@);
        assert(forall|k: int| idx < k < pv.len() ==> pv[k] == prev[k - 1]);
        assert forall|i: int, j: int| 0 <= i < j < pv.len() implies lex_le(
            pv[i].year,
            pv[j].year,
        ) by {
            if j < idx as int {
                // both untouched
            } else if i < idx as int && j == idx as int {
                // the scan passed position i
            } else if i == idx as int && j > idx as int {
                // p precedes what it displaced, and transitively all after it
                if j - 1 > idx as int {
                    lemma_lex_le_trans(p@.year, prev[idx as int].year, prev[j - 1].year);
                }
            } else if i < idx as int && j > idx as int {
                // untouched pair, shifted on the right
            }
        }
    }
    proof {
        // the new contents are the old contents plus the new point
        broadcast use vstd::seq_lib::to_multiset_insert;

        assert(pts_view(out@) =~= pts_view(orig).insert(idx as int, p@));
        assert(pts_view(orig).insert(idx as int, p@).to_multiset() == pts_view(
            orig,
        ).to_multiset().insert(p@));
    }
}

/// Sorts a point list ascending by year. The result holds exactly the
/// points given, reordered.
pub fn sort_points(points: Vec<DataPoint>) -> (r: Vec<DataPoint>)
    ensures
        sorted_by_year(pts_view(r@)),
        pts_view(r@).to_multiset() == pts_view(points@).to_multiset(),
        r@.len() == points@.len(),
{
    let mut rem = points;
    let mut out: Vec<DataPoint> = Vec::new();
    proof {
        broadcast use vstd::multiset::group_multiset_axioms;
        broadcast use vstd::seq_lib::to_multiset_len;

        assert(pts_view(out@) =~= Seq::<DataPointV>::empty());
        assert(pts_view(out@).to_multiset().len() == 0);
        vstd::multiset::lemma_multiset_empty_len::<DataPointV>(pts_view(out@).to_multiset());
        assert(pts_view(out@).to_multiset() =~= Multiset::<DataPointV>::empty());
        assert(pts_view(out@).to_multiset().add(pts_view(rem@).to_multiset()) =~= pts_view(
            points@,
        ).to_multiset());
    }
    while rem.len() > 0
        invariant
            sorted_by_year(pts_view(out@)),
            pts_view(out@).to_multiset().add(pts_view(rem@).to_multiset()) == pts_view(
                points@,
            ).to_multiset(),
            out@.len() + rem@.len() == points@.len(),
        decreases rem@.len(),
    {
        let ghost rem_before = rem@;
        let p = rem.pop().unwrap();
        proof {
            broadcast use vstd::seq_lib::to_multiset_build;
            broadcast use vstd::multiset::group_multiset_axioms;

            assert(rem_before =~= rem@.push(p));
            assert(pts_view(rem_before) =~= pts_view(rem@).push(p@));
            assert(pts_view(rem@).push(p@).to_multiset() =~= pts_view(
                rem@,
            ).to_multiset().insert(p@));
        }
        insert_sorted(&mut out, p);
        proof {
            broadcast use vstd::multiset::group_multiset_axioms;

            assert(pts_view(out@).to_multiset().add(pts_view(rem@).to_multiset())
                =~= pts_view(points@).to_multiset());
        }
    }
    proof {
        broadcast use vstd::seq_lib::to_multiset_len;
        broadcast use vstd::multiset::group_multiset_axioms;

        assert(pts_view(rem@) =~= Seq::<DataPointV>::empty());
        assert(pts_view(rem@).to_multiset().len() == 0);
        vstd::multiset::lemma_multiset_empty_len::<DataPointV>(pts_view(rem@).to_multiset());
        assert(pts_view(out@).to_multiset() =~= pts_view(points@).to_multiset());
    }
    out
}

} // verus!
