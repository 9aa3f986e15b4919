//! Client-side list logic: picking countries to compare (at most three,
//! no duplicates) and filtering the country list by a search string,
//! case-insensitively on name and code.

use vstd::prelude::*;
use crate::models::{Country, CountryV, countries_view};

verus! {

/// The most countries a comparison selects.
pub const MAX_SELECTED: usize = 3;

/// Some country of the list carries this id.
pub open spec fn has_country_id(s: Seq<CountryV>, id: Seq<char>) -> bool {
    exists|i: int| 0 <= i < s.len() && (#[trigger] s[i]).id == id
}

/// Adds a country to the selection unless the selection is full or
/// already holds that id; the selection is returned unchanged
/// otherwise.
pub fn add_selected_country(selected: Vec<Country>, country: Country) -> (r: Vec<Country>)
    ensures
        r@ == if selected@.len() < MAX_SELECTED && !has_country_id(
            countries_view(selected@),
            country.id@,
        ) {
            selected@.push(country)
        } else {
            selected@
        },
{
    if selected.len() >= MAX_SELECTED {
        return selected;
    }
    let mut j: usize = 0;
    while j < selected.len()
        invariant
            j <= selected@.len(),
            forall|k: int| 0 <= k < j ==> (#[trigger] countries_view(selected@)[k]).id
                != country.id@,
        decreases selected@.len() - j,
    {
        if selected[j].id == country.id {
            assert(countries_view(selected@)[j as int].id == country.id@);
            return selected;
        }
        j = j + 1;
    }
    let mut out = selected;
    out.push(country);
    out
}

/// Removes the selection's entry at `idx`, keeping the order of the
/// rest.
pub fn remove_selected_country(selected: Vec<Country>, idx: usize) -> (r: Vec<Country>)
    requires
        idx < selected@.len(),
    ensures
        r@ == selected@.remove(idx as int),
{
    let mut out = selected;
    let _ = out.remove(idx);
    out
}

/// The lowercase image of a character sequence, as `str::to_lowercase`
/// computes it; it depends on the characters alone.
pub uninterp spec fn lower_of(s: Seq<char>) -> Seq<char>;

/// Relies on str::to_lowercase: the lowercase mapping of the text,
/// a function of the characters alone.
#[verifier::external_body]
fn to_lowercase(s: &str) -> (r: String)
    ensures
        r@ == lower_of(s@),
{
    s.to_lowercase()
}

/// A sequence occurs inside another, contiguously, at some offset.
pub open spec fn contains_seq(s: Seq<char>, sub: Seq<char>) -> bool {
    exists|off: int|
        0 <= off && off + sub.len() <= s.len() && #[trigger] s.subrange(off, off + sub.len())
            == sub
}

/// Relies on str::contains with a string pattern: true exactly when the
/// pattern occurs as a contiguous substring.
#[verifier::external_body]
fn str_contains(s: &str, sub: &str) -> (r: bool)
    ensures
        r == contains_seq(s@, sub@),
{
    s.contains(sub)
}

/// A country matches a search when the search is empty or its lowered
/// text occurs in the lowered name or code.
pub open spec fn matches_search(c: CountryV, search: Seq<char>) -> bool {
    ||| search.len() == 0
    ||| contains_seq(lower_of(c.name), lower_of(search))
    ||| contains_seq(lower_of(c.code), lower_of(search))
}

/// The countries matching a search, in order.
pub open spec fn search_filtered(s: Seq<CountryV>, search: Seq<char>) -> Seq<CountryV>
    decreases s.len(),
{
    if s.len() == 0 {
        Seq::empty()
    } else {
        search_filtered(s.drop_last(), search) + (if matches_search(s.last(), search) {
            seq![s.last()]
        } else {
            Seq::<CountryV>::empty()
        })
    }
}

proof fn lemma_search_filtered_take_succ(s: Seq<CountryV>, search: Seq<char>, i: int)
    requires
        0 <= i < s.len(),
    ensures
        search_filtered(s.take(i + 1), search) == search_filtered(s.take(i), search) + (
        if matches_search(s[i], search) {
            seq![s[i]]
        } else {
            Seq::<CountryV>::empty()
        }),
{
    assert(s.take(i + 1).drop_last() =~= s.take(i));
    assert(s.take(i + 1).last() == s[i]);
}

/// Filters the country list by a search string: an empty search keeps
/// everything; otherwise a country stays when its name or code
/// contains the search, case-insensitively.
pub fn filter_countries(countries: &Vec<Country>, search: &str) -> (r: Vec<Country>)
    ensures
        countries_view(r@) == search_filtered(countries_view(countries@), search@),
{
    let ghost cv = countries_view(countries@);
    let empty_search = search.is_empty();
    let search_lower = to_lowercase(search);
    let mut out: Vec<Country> = Vec::new();
    proof {
        assert(countries_view(out@) =~= Seq::<CountryV>::empty());
        assert(cv.take(0) =~= Seq::<CountryV>::empty());
    }
    for i in 0..countries.len()
        invariant
            cv == countries_view(countries@),
            empty_search == (search@.len() == 0),
            search_lower@ == lower_of(search@),
            countries_view(out@) == search_filtered(cv.take(i as int), search@),
    {
        let c = &countries[i];
        assert(cv[i as int] == c@);
        let ghost out_before = out@;
        let keep = if empty_search {
            true
        } else {
            let name_lower = to_lowercase(c.name.as_str());
            let code_lower = to_lowercase(c.code.as_str());
            str_contains(name_lower.as_str(), search_lower.as_str()) || str_contains(
                code_lower.as_str(),
                search_lower.as_str(),
            )
        };
        assert(keep == matches_search(cv[i as int], search@));
        if keep {
            out.push(c.duplicate());
        }
        proof {
            lemma_search_filtered_take_succ(cv, search@, i as int);
            if keep {
                assert(countries_view(out@) =~= countries_view(out_before).push(cv[i as int]));
                assert(countries_view(out@) =~= search_filtered(cv.take(i + 1), search@));
            } else {
                assert(countries_view(out@) =~= search_filtered(cv.take(i + 1), search@));
            }
        }
    }
    proof {
        assert(cv.take(countries@.len() as int) =~= cv);
    }
    out
}

} // verus!
