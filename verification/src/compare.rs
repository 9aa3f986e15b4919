//! The comparison pipeline. Given the catalog and the requested country
//! and indicator ids, the response lists the requested countries the
//! catalog knows, in request order, and merges the per-pair series that
//! could be fetched into a nested lookup. A pair that failed is simply
//! absent: the fan-out is best-effort, and an outer key exists only
//! once at least one pair of its country succeeded.
//!
//! The nested lookup is an association list with unique keys; its
//! mathematical image is a `Map` of `Map`s, and every operation here is
//! specified against that image.

use vstd::prelude::*;
use crate::models::{
    ComparisonResponse, Country, CountryEntry, CountryV, DataPoint, DataPointV, SeriesEntry,
    countries_view, strings_view,
};
use crate::order::pts_view;

verus! {

/// The image of one country's series list: indicator id to points.
pub open spec fn series_map(s: Seq<SeriesEntry>) -> Map<Seq<char>, Seq<DataPointV>>
    decreases s.len(),
{
    if s.len() == 0 {
        Map::empty()
    } else {
        series_map(s.drop_last()).insert(s.last().indicator_id@, pts_view(s.last().points@))
    }
}

/// The image of the whole lookup: country id to its series map.
pub open spec fn data_map(d: Seq<CountryEntry>) -> Map<Seq<char>, Map<Seq<char>, Seq<DataPointV>>>
    decreases d.len(),
{
    if d.len() == 0 {
        Map::empty()
    } else {
        data_map(d.drop_last()).insert(d.last().country_id@, series_map(d.last().series@))
    }
}

/// Unique indicator keys within one country's list.
pub open spec fn wf_series(s: Seq<SeriesEntry>) -> bool {
    forall|i: int, j: int|
        0 <= i < j < s.len() ==> s[i].indicator_id@ != s[j].indicator_id@
}

/// Unique country keys, and well-formed series lists inside.
pub open spec fn wf_data(d: Seq<CountryEntry>) -> bool {
    &&& forall|i: int, j: int| 0 <= i < j < d.len() ==> d[i].country_id@ != d[j].country_id@
    &&& forall|i: int| 0 <= i < d.len() ==> wf_series(#[trigger] d[i].series@)
}

/// A key is in the series map exactly when some entry carries it.
proof fn lemma_series_map_dom(s: Seq<SeriesEntry>, k: Seq<char>)
    ensures
        series_map(s).dom().contains(k) <==> exists|i: int|
            0 <= i < s.len() && s[i].indicator_id@ == k,
    decreases s.len(),
{
    if s.len() > 0 {
        lemma_series_map_dom(s.drop_last(), k);
        if series_map(s).dom().contains(k) && s.last().indicator_id@ != k {
            let i = choose|i: int|
                0 <= i < s.drop_last().len() && s.drop_last()[i].indicator_id@ == k;
            assert(s[i].indicator_id@ == k);
        }
        if exists|i: int| 0 <= i < s.len() && s[i].indicator_id@ == k {
            let i = choose|i: int| 0 <= i < s.len() && s[i].indicator_id@ == k;
            if i < s.len() - 1 {
                assert(s.drop_last()[i].indicator_id@ == k);
            }
        }
    }
}

/// A key is in the data map exactly when some entry carries it.
proof fn lemma_data_map_dom(d: Seq<CountryEntry>, k: Seq<char>)
    ensures
        data_map(d).dom().contains(k) <==> exists|i: int|
            0 <= i < d.len() && d[i].country_id@ == k,
    decreases d.len(),
{
    if d.len() > 0 {
        lemma_data_map_dom(d.drop_last(), k);
        if data_map(d).dom().contains(k) && d.last().country_id@ != k {
            let i = choose|i: int|
                0 <= i < d.drop_last().len() && d.drop_last()[i].country_id@ == k;
            assert(d[i].country_id@ == k);
        }
        if exists|i: int| 0 <= i < d.len() && d[i].country_id@ == k {
            let i = choose|i: int| 0 <= i < d.len() && d[i].country_id@ == k;
            if i < d.len() - 1 {
                assert(d.drop_last()[i].country_id@ == k);
            }
        }
    }
}

/// Replacing the entry at `j` replaces its key's image, and nothing else.
proof fn lemma_series_map_update(s: Seq<SeriesEntry>, j: int, e: SeriesEntry)
    requires
        0 <= j < s.len(),
        e.indicator_id@ == s[j].indicator_id@,
        forall|i: int| 0 <= i < s.len() && i != j ==> s[i].indicator_id@ != s[j].indicator_id@,
    ensures
        series_map(s.update(j, e)) == series_map(s).insert(e.indicator_id@, pts_view(e.points@)),
    decreases s.len(),
{
    let t = s.update(j, e);
    if j == s.len() - 1 {
        assert(t.drop_last() =~= s.drop_last());
        assert(t.last() == e);
        assert(series_map(t) =~= series_map(s).insert(e.indicator_id@, pts_view(e.points@)));
    } else {
        lemma_series_map_update(s.drop_last(), j, e);
        assert(t.drop_last() =~= s.drop_last().update(j, e));
        assert(t.last() == s.last());
        assert(series_map(t) =~= series_map(s).insert(e.indicator_id@, pts_view(e.points@)));
    }
}

/// Replacing the entry at `j` replaces its key's image, and nothing else.
proof fn lemma_data_map_update(d: Seq<CountryEntry>, j: int, e: CountryEntry)
    requires
        0 <= j < d.len(),
        e.country_id@ == d[j].country_id@,
        forall|i: int| 0 <= i < d.len() && i != j ==> d[i].country_id@ != d[j].country_id@,
    ensures
        data_map(d.update(j, e)) == data_map(d).insert(e.country_id@, series_map(e.series@)),
    decreases d.len(),
{
    let t = d.update(j, e);
    if j == d.len() - 1 {
        assert(t.drop_last() =~= d.drop_last());
        assert(t.last() == e);
        assert(data_map(t) =~= data_map(d).insert(e.country_id@, series_map(e.series@)));
    } else {
        lemma_data_map_update(d.drop_last(), j, e);
        assert(t.drop_last() =~= d.drop_last().update(j, e));
        assert(t.last() == d.last());
        assert(data_map(t) =~= data_map(d).insert(e.country_id@, series_map(e.series@)));
    }
}

/// With unique keys, the entry at `j` is its key's image in the map.
proof fn lemma_series_map_at(s: Seq<SeriesEntry>, j: int)
    requires
        0 <= j < s.len(),
        forall|i: int| j < i < s.len() ==> s[i].indicator_id@ != s[j].indicator_id@,
    ensures
        series_map(s).dom().contains(s[j].indicator_id@),
        series_map(s)[s[j].indicator_id@] == pts_view(s[j].points@),
    decreases s.len(),
{
    if j == s.len() - 1 {
    } else {
        lemma_series_map_at(s.drop_last(), j);
    }
}

/// With unique keys, the entry at `j` is its key's image in the map.
proof fn lemma_data_map_at(d: Seq<CountryEntry>, j: int)
    requires
        0 <= j < d.len(),
        forall|i: int| j < i < d.len() ==> d[i].country_id@ != d[j].country_id@,
    ensures
        data_map(d).dom().contains(d[j].country_id@),
        data_map(d)[d[j].country_id@] == series_map(d[j].series@),
    decreases d.len(),
{
    if j == d.len() - 1 {
    } else {
        lemma_data_map_at(d.drop_last(), j);
    }
}

/// With unique keys, the series map has exactly one binding per entry.
pub proof fn lemma_series_map_len(s: Seq<SeriesEntry>)
    requires
        wf_series(s),
    ensures
        series_map(s).dom().finite(),
        series_map(s).dom().len() == s.len(),
    decreases s.len(),
{
    broadcast use vstd::set::group_set_axioms;

    if s.len() > 0 {
        assert(wf_series(s.drop_last()));
        lemma_series_map_len(s.drop_last());
        lemma_series_map_dom(s.drop_last(), s.last().indicator_id@);
        assert(!series_map(s.drop_last()).dom().contains(s.last().indicator_id@));
        assert(series_map(s).dom() =~= series_map(s.drop_last()).dom().insert(
            s.last().indicator_id@,
        ));
    }
}

/// With unique keys, the data map has exactly one binding per entry.
pub proof fn lemma_data_map_len(d: Seq<CountryEntry>)
    requires
        wf_data(d),
    ensures
        data_map(d).dom().finite(),
        data_map(d).dom().len() == d.len(),
    decreases d.len(),
{
    broadcast use vstd::set::group_set_axioms;

    if d.len() > 0 {
        assert(wf_data(d.drop_last()));
        lemma_data_map_len(d.drop_last());
        lemma_data_map_dom(d.drop_last(), d.last().country_id@);
        assert(!data_map(d.drop_last()).dom().contains(d.last().country_id@));
        assert(data_map(d).dom() =~= data_map(d.drop_last()).dom().insert(
            d.last().country_id@,
        ));
    }
}

/// Stores the points of one indicator in a series list: overwrites the
/// entry with that key, or appends a new one. The image gains exactly
/// that binding; the list grows only when the key was new.
fn upsert_series(series: &mut Vec<SeriesEntry>, indicator_id: &String, points: Vec<DataPoint>)
    requires
        wf_series(old(series)@),
    ensures
        wf_series(final(series)@),
        series_map(final(series)@) == series_map(old(series)@).insert(
            indicator_id@,
            pts_view(points@),
        ),
        final(series)@.len() == old(series)@.len() + (if series_map(old(series)@).dom().contains(
            indicator_id@,
        ) {
            0int
        } else {
            1int
        }),
{
    let ghost orig = series@;
    let mut j: usize = 0;
    while j < series.len()
        invariant
            j <= orig.len(),
            orig == old(series)@,
            series@ == orig,
            wf_series(orig),
            forall|k: int| 0 <= k < j ==> orig[k].indicator_id@ != indicator_id@,
        decreases orig.len() - j,
    {
        if series[j].indicator_id == *indicator_id {
            let entry = SeriesEntry { indicator_id: indicator_id.clone(), points };
            let _ = series.remove(j);
            series.insert(j, entry);
            proof {
                assert forall|i: int|
                    0 <= i < orig.len() && i != j as int implies orig[i].indicator_id@
                    != orig[j as int].indicator_id@ by {
                    if i < j as int {
                        assert(orig[i].indicator_id@ != orig[j as int].indicator_id@);
                    } else {
                        assert(orig[j as int].indicator_id@ != orig[i].indicator_id@);
                    }
                }
                assert(series@ =~= orig.update(j as int, entry));
                lemma_series_map_update(orig, j as int, entry);
                lemma_series_map_dom(orig, indicator_id@);
            }
            return ;
        }
        j = j + 1;
    }
    let entry = SeriesEntry { indicator_id: indicator_id.clone(), points };
    series.push(entry);
    proof {
        assert(series@.drop_last() =~= orig);
        lemma_series_map_dom(orig, indicator_id@);
    }
}

/// Stores the points of one fetched pair in the lookup. The outer entry
/// for the country is created on its first success; the image gains
/// exactly the nested binding.
pub fn record_success(
    data: &mut Vec<CountryEntry>,
    country_id: &String,
    indicator_id: &String,
    points: Vec<DataPoint>,
)
    requires
        wf_data(old(data)@),
    ensures
        wf_data(final(data)@),
        data_map(final(data)@) == data_map(old(data)@).insert(
            country_id@,
            (if data_map(old(data)@).dom().contains(country_id@) {
                data_map(old(data)@)[country_id@]
            } else {
                Map::empty()
            }).insert(indicator_id@, pts_view(points@)),
        ),
        final(data)@.len() == old(data)@.len() + (if data_map(old(data)@).dom().contains(
            country_id@,
        ) {
            0int
        } else {
            1int
        }),
{
    let ghost orig = data@;
    let mut j: usize = 0;
    while j < data.len()
        invariant
            j <= orig.len(),
            orig == old(data)@,
            data@ == orig,
            wf_data(orig),
            forall|k: int| 0 <= k < j ==> orig[k].country_id@ != country_id@,
        decreases orig.len() - j,
    {
        if data[j].country_id == *country_id {
            let mut entry = data.remove(j);
            proof {
                assert forall|i: int|
                    0 <= i < orig.len() && i != j as int implies orig[i].country_id@
                    != orig[j as int].country_id@ by {
                    if i < j as int {
                        assert(orig[i].country_id@ != orig[j as int].country_id@);
                    } else {
                        assert(orig[j as int].country_id@ != orig[i].country_id@);
                    }
                }
                lemma_data_map_at(orig, j as int);
                assert(wf_series(orig[j as int].series@));
            }
            upsert_series(&mut entry.series, indicator_id, points);
            data.insert(j, entry);
            proof {
                assert(data@ =~= orig.update(j as int, data@[j as int]));
                lemma_data_map_update(orig, j as int, data@[j as int]);
                lemma_data_map_dom(orig, country_id@);
                assert forall|i: int| 0 <= i < data@.len() implies wf_series(
                    #[trigger] data@[i].series@,
                ) by {
                    if i != j as int {
                        assert(data@[i] == orig[i]);
                    }
                }
            }
            return ;
        }
        j = j + 1;
    }
    let mut series: Vec<SeriesEntry> = Vec::new();
    upsert_series(&mut series, indicator_id, points);
    let entry = CountryEntry { country_id: country_id.clone(), series };
    data.push(entry);
    proof {
        assert(data@.drop_last() =~= orig);
        lemma_data_map_dom(orig, country_id@);
        assert(series_map(Seq::<SeriesEntry>::empty()) =~= Map::<
            Seq<char>,
            Seq<DataPointV>,
        >::empty());
    }
}

/// The first catalog country carrying the given id, if any.
pub open spec fn catalog_lookup(catalog: Seq<CountryV>, id: Seq<char>) -> Option<CountryV>
    decreases catalog.len(),
{
    if catalog.len() == 0 {
        None
    } else if catalog[0].id == id {
        Some(catalog[0])
    } else {
        catalog_lookup(catalog.drop_first(), id)
    }
}

/// The requested ids that the catalog knows, in request order, each
/// replaced by its catalog country. Unknown ids vanish silently.
pub open spec fn selected_countries(catalog: Seq<CountryV>, ids: Seq<Seq<char>>) -> Seq<CountryV>
    decreases ids.len(),
{
    if ids.len() == 0 {
        Seq::empty()
    } else {
        selected_countries(catalog, ids.drop_last()) + match catalog_lookup(catalog, ids.last()) {
            Some(c) => seq![c],
            None => Seq::empty(),
        }
    }
}

proof fn lemma_selected_countries_take_succ(catalog: Seq<CountryV>, ids: Seq<Seq<char>>, i: int)
    requires
        0 <= i < ids.len(),
    ensures
        selected_countries(catalog, ids.take(i + 1)) == selected_countries(catalog, ids.take(i))
            + match catalog_lookup(catalog, ids[i]) {
            Some(c) => seq![c],
            None => Seq::empty(),
        },
{
    assert(ids.take(i + 1).drop_last() =~= ids.take(i));
    assert(ids.take(i + 1).last() == ids[i]);
}

proof fn lemma_catalog_lookup_at(catalog: Seq<CountryV>, id: Seq<char>, j: int)
    requires
        0 <= j < catalog.len(),
        catalog[j].id == id,
        forall|k: int| 0 <= k < j ==> catalog[k].id != id,
    ensures
        catalog_lookup(catalog, id) == Some(catalog[j]),
    decreases j,
{
    if j > 0 {
        lemma_catalog_lookup_at(catalog.drop_first(), id, j - 1);
    }
}

proof fn lemma_catalog_lookup_none(catalog: Seq<CountryV>, id: Seq<char>)
    requires
        forall|k: int| 0 <= k < catalog.len() ==> catalog[k].id != id,
    ensures
        catalog_lookup(catalog, id) is None,
    decreases catalog.len(),
{
    if catalog.len() > 0 {
        lemma_catalog_lookup_none(catalog.drop_first(), id);
    }
}

/// Keeps, of the requested ids, those the catalog knows, in request
/// order, as their catalog countries. A requested id missing from the
/// catalog is silently omitted.
pub fn select_countries(catalog: &Vec<Country>, ids: &Vec<String>) -> (r: Vec<Country>)
    ensures
        countries_view(r@) == selected_countries(countries_view(catalog@), strings_view(ids@)),
{
    let ghost cat = countries_view(catalog@);
    let ghost idv = strings_view(ids@);
    let mut out: Vec<Country> = Vec::new();
    proof {
        assert(countries_view(out@) =~= Seq::<CountryV>::empty());
        assert(idv.take(0) =~= Seq::<Seq<char>>::empty());
    }
    for i in 0..ids.len()
        invariant
            cat == countries_view(catalog@),
            idv == strings_view(ids@),
            countries_view(out@) == selected_countries(cat, idv.take(i as int)),
    {
        let id = &ids[i];
        assert(idv[i as int] == id@);
        let mut j: usize = 0;
        let mut found = false;
        proof {
            assert(countries_view(out@) =~= selected_countries(cat, idv.take(i as int)).add(
                Seq::<CountryV>::empty(),
            ));
        }
        while j < catalog.len() && !found
            invariant
                j <= catalog@.len(),
                cat == countries_view(catalog@),
                idv == strings_view(ids@),
                idv[i as int] == id@,
                countries_view(out@) == selected_countries(cat, idv.take(i as int)).add(
                    if found {
                        seq![cat[j - 1]]
                    } else {
                        Seq::<CountryV>::empty()
                    },
                ),
                found ==> 0 < j <= catalog@.len() && catalog_lookup(cat, id@) == Some(
                    cat[j - 1],
                ),
                !found ==> forall|k: int| 0 <= k < j ==> cat[k].id != id@,
            decreases catalog@.len() - j,
        {
            if catalog[j].id == *id {
                out.push(catalog[j].duplicate());
                found = true;
                proof {
                    assert(cat[j as int] == catalog@[j as int]@);
                    lemma_catalog_lookup_at(cat, id@, j as int);
                    assert(countries_view(out@) =~= selected_countries(cat, idv.take(i as int))
                        .add(seq![cat[j as int]]));
                }
            } else {
                proof {
                    if !found {
                        assert(countries_view(out@) =~= selected_countries(
                            cat,
                            idv.take(i as int),
                        ).add(Seq::<CountryV>::empty()));
                    }
                }
            }
            j = j + 1;
        }
        proof {
            lemma_selected_countries_take_succ(cat, idv, i as int);
            if !found {
                lemma_catalog_lookup_none(cat, id@);
                assert(countries_view(out@) =~= selected_countries(cat, idv.take(i + 1)));
            } else {
                assert(countries_view(out@) =~= selected_countries(cat, idv.take(i + 1)));
            }
        }
    }
    proof {
        assert(idv.take(ids@.len() as int) =~= idv);
    }
    out
}

/// What one fetch of the fan-out produced: the pair's ids and, when it
/// succeeded, its points. A failed pair carries `None`, whatever the
/// failure was.
pub struct PairOutcome {
    pub country_id: String,
    pub indicator_id: String,
    pub points: Option<Vec<DataPoint>>,
}

/// Mathematical image of a `PairOutcome`.
#[verifier::ext_equal]
pub struct PairOutcomeV {
    pub country_id: Seq<char>,
    pub indicator_id: Seq<char>,
    pub points: Option<Seq<DataPointV>>,
}

impl View for PairOutcome {
    type V = PairOutcomeV;

    open spec fn view(&self) -> PairOutcomeV {
        PairOutcomeV {
            country_id: self.country_id@,
            indicator_id: self.indicator_id@,
            points: match self.points {
                Some(ref v) => Some(pts_view(v@)),
                None => None,
            },
        }
    }
}

/// The image of an outcome list.
pub open spec fn outcomes_view(s: Seq<PairOutcome>) -> Seq<PairOutcomeV> {
    s.map_values(|o: PairOutcome| o@)
}

/// The lookup that a list of outcomes merges into: each success stores
/// its points under its pair of keys, the outer entry arising with the
/// first success of its country; each failure leaves the lookup as it
/// was.
pub open spec fn merge_outcomes(s: Seq<PairOutcomeV>) -> Map<
    Seq<char>,
    Map<Seq<char>, Seq<DataPointV>>,
>
    decreases s.len(),
{
    if s.len() == 0 {
        Map::empty()
    } else {
        let m = merge_outcomes(s.drop_last());
        let o = s.last();
        match o.points {
            Some(pts) => m.insert(
                o.country_id,
                (if m.dom().contains(o.country_id) {
                    m[o.country_id]
                } else {
                    Map::empty()
                }).insert(o.indicator_id, pts),
            ),
            None => m,
        }
    }
}

proof fn lemma_merge_outcomes_take_succ(s: Seq<PairOutcomeV>, i: int)
    requires
        0 <= i < s.len(),
    ensures
        merge_outcomes(s.take(i + 1)) == ({
            let m = merge_outcomes(s.take(i));
            match s[i].points {
                Some(pts) => m.insert(
                    s[i].country_id,
                    (if m.dom().contains(s[i].country_id) {
                        m[s[i].country_id]
                    } else {
                        Map::empty()
                    }).insert(s[i].indicator_id, pts),
                ),
                None => m,
            }
        }),
{
    assert(s.take(i + 1).drop_last() =~= s.take(i));
    assert(s.take(i + 1).last() == s[i]);
}

/// Builds the nested lookup from the fan-out's outcomes: exactly the
/// merge of the successes, failed pairs absent.
pub fn assemble_data(outcomes: &Vec<PairOutcome>) -> (r: Vec<CountryEntry>)
    ensures
        wf_data(r@),
        data_map(r@) == merge_outcomes(outcomes_view(outcomes@)),
{
    let ghost ov = outcomes_view(outcomes@);
    let mut data: Vec<CountryEntry> = Vec::new();
    proof {
        assert(ov.take(0) =~= Seq::<PairOutcomeV>::empty());
        assert(data@ =~= Seq::<CountryEntry>::empty());
    }
    for i in 0..outcomes.len()
        invariant
            ov == outcomes_view(outcomes@),
            wf_data(data@),
            data_map(data@) == merge_outcomes(ov.take(i as int)),
    {
        let o = &outcomes[i];
        assert(ov[i as int] == o@);
        match &o.points {
            Some(points) => {
                let pts = crate::models::copy_points(points);
                record_success(&mut data, &o.country_id, &o.indicator_id, pts);
            },
            None => {},
        }
        proof {
            lemma_merge_outcomes_take_succ(ov, i as int);
        }
    }
    proof {
        assert(ov.take(outcomes@.len() as int) =~= ov);
    }
    data
}

/// The whole response for one comparison request: the requested
/// countries the catalog knows, in request order, and the merge of the
/// per-pair outcomes.
pub fn build_comparison(
    catalog: &Vec<Country>,
    requested: &Vec<String>,
    outcomes: &Vec<PairOutcome>,
) -> (r: ComparisonResponse)
    ensures
        countries_view(r.countries@) == selected_countries(
            countries_view(catalog@),
            strings_view(requested@),
        ),
        wf_data(r.data@),
        data_map(r.data@) == merge_outcomes(outcomes_view(outcomes@)),
{
    ComparisonResponse {
        countries: select_countries(catalog, requested),
        data: assemble_data(outcomes),
    }
}

/// A country id is an outer key of the merged lookup exactly when at
/// least one of its pairs succeeded: failures create no entry, and the
/// outer entry arises only with the first success.
pub proof fn lemma_merge_outcomes_dom(s: Seq<PairOutcomeV>, cid: Seq<char>)
    ensures
        merge_outcomes(s).dom().contains(cid) <==> exists|k: int|
            0 <= k < s.len() && (#[trigger] s[k]).country_id == cid && s[k].points is Some,
    decreases s.len(),
{
    if s.len() > 0 {
        lemma_merge_outcomes_dom(s.drop_last(), cid);
        let o = s.last();
        if merge_outcomes(s).dom().contains(cid) {
            if !(o.country_id == cid && o.points is Some) {
                let k = choose|k: int|
                    0 <= k < s.drop_last().len() && (#[trigger] s.drop_last()[k]).country_id
                        == cid && s.drop_last()[k].points is Some;
                assert(s[k].country_id == cid && s[k].points is Some);
            }
        }
        if exists|k: int|
            0 <= k < s.len() && (#[trigger] s[k]).country_id == cid && s[k].points is Some {
            let k = choose|k: int|
                0 <= k < s.len() && (#[trigger] s[k]).country_id == cid && s[k].points is Some;
            if k < s.len() - 1 {
                assert(s.drop_last()[k].country_id == cid && s.drop_last()[k].points is Some);
            }
        }
    }
}

/// An indicator id is an inner key under a country exactly when that
/// exact pair succeeded at least once.
pub proof fn lemma_merge_outcomes_inner(s: Seq<PairOutcomeV>, cid: Seq<char>, iid: Seq<char>)
    requires
        merge_outcomes(s).dom().contains(cid),
    ensures
        merge_outcomes(s)[cid].dom().contains(iid) <==> exists|k: int|
            0 <= k < s.len() && (#[trigger] s[k]).country_id == cid && s[k].indicator_id == iid
                && s[k].points is Some,
    decreases s.len(),
{
    if s.len() > 0 {
        let rest = s.drop_last();
        let m = merge_outcomes(rest);
        let o = s.last();
        lemma_merge_outcomes_dom(rest, cid);
        lemma_merge_outcomes_dom(s, cid);
        if m.dom().contains(cid) {
            lemma_merge_outcomes_inner(rest, cid, iid);
        }
        if merge_outcomes(s)[cid].dom().contains(iid) {
            if o.points is Some && o.country_id == cid && o.indicator_id == iid {
                assert(s[s.len() - 1].country_id == cid && s[s.len() - 1].indicator_id == iid
                    && s[s.len() - 1].points is Some);
            } else {
                // the witness lies before the last outcome
                let k = choose|k: int|
                    0 <= k < rest.len() && (#[trigger] rest[k]).country_id == cid
                        && rest[k].indicator_id == iid && rest[k].points is Some;
                assert(s[k].country_id == cid && s[k].indicator_id == iid && s[k].points
                    is Some);
            }
        }
        if exists|k: int|
            0 <= k < s.len() && (#[trigger] s[k]).country_id == cid && s[k].indicator_id == iid
                && s[k].points is Some {
            let k = choose|k: int|
                0 <= k < s.len() && (#[trigger] s[k]).country_id == cid && s[k].indicator_id
                    == iid && s[k].points is Some;
            if k < s.len() - 1 {
                assert(rest[k].country_id == cid && rest[k].indicator_id == iid && rest[k].points
                    is Some);
                assert(merge_outcomes(s)[cid].dom().contains(iid));
            }
        }
    }
}

/// One pair's outcome: a success for exactly this country and
/// indicator.
pub open spec fn success_for(o: PairOutcomeV, cid: Seq<char>, iid: Seq<char>) -> bool {
    o.country_id == cid && o.indicator_id == iid && o.points is Some
}

/// Some outcome of the list is a success for this exact pair.
pub open spec fn has_success(s: Seq<PairOutcomeV>, cid: Seq<char>, iid: Seq<char>) -> bool {
    exists|k: int| 0 <= k < s.len() && #[trigger] success_for(s[k], cid, iid)
}

/// When every pair of the cross product of `cids` and `iids` succeeds,
/// and nothing else was attempted, the merged lookup has exactly the
/// requested countries as outer keys — as many as requested — and under
/// each of them exactly the requested indicators.
pub proof fn lemma_full_success_shape(
    s: Seq<PairOutcomeV>,
    cids: Seq<Seq<char>>,
    iids: Seq<Seq<char>>,
)
    requires
        cids.no_duplicates(),
        iids.no_duplicates(),
        iids.len() > 0,
        forall|k: int|
            0 <= k < s.len() ==> (#[trigger] s[k]).points is Some && cids.contains(s[k].country_id)
                && iids.contains(s[k].indicator_id),
        forall|ci: int, ii: int|
            #![trigger cids[ci], iids[ii]]
            0 <= ci < cids.len() && 0 <= ii < iids.len() ==> has_success(s, cids[ci], iids[ii]),
    ensures
        merge_outcomes(s).dom() =~= cids.to_set(),
        merge_outcomes(s).dom().len() == cids.len(),
        forall|ci: int|
            0 <= ci < cids.len() ==> {
                let inner = merge_outcomes(s)[#[trigger] cids[ci]];
                inner.dom() =~= iids.to_set() && inner.dom().len() == iids.len()
            },
{
    let m = merge_outcomes(s);
    assert forall|cid: Seq<char>| m.dom().contains(cid) <==> cids.contains(cid) by {
        lemma_merge_outcomes_dom(s, cid);
        if cids.contains(cid) {
            let ci = choose|ci: int| 0 <= ci < cids.len() && cids[ci] == cid;
            // ground the first indicator index so the pair premise applies
            let _iid0 = iids[0];
            assert(cids[ci] == cid);
            assert(has_success(s, cids[ci], iids[0]));
            let k = choose|k: int|
                0 <= k < s.len() && #[trigger] success_for(s[k], cids[ci], iids[0]);
            assert(s[k].country_id == cid && s[k].points is Some);
        }
    }
    assert(m.dom() =~= cids.to_set());
    cids.unique_seq_to_set();
    iids.unique_seq_to_set();
    assert forall|ci: int| 0 <= ci < cids.len() implies {
        let inner = m[#[trigger] cids[ci]];
        inner.dom() =~= iids.to_set() && inner.dom().len() == iids.len()
    } by {
        let cid = cids[ci];
        assert(m.dom().contains(cid));
        let inner = m[cid];
        assert forall|iid: Seq<char>| inner.dom().contains(iid) <==> iids.contains(iid) by {
            lemma_merge_outcomes_inner(s, cid, iid);
            if iids.contains(iid) {
                let ii = choose|ii: int| 0 <= ii < iids.len() && iids[ii] == iid;
                assert(iids[ii] == iid);
                assert(has_success(s, cids[ci], iids[ii]));
                let k = choose|k: int|
                    0 <= k < s.len() && #[trigger] success_for(s[k], cids[ci], iids[ii]);
                assert(s[k].country_id == cid && s[k].indicator_id == iid && s[k].points
                    is Some);
            }
        }
        assert(inner.dom() =~= iids.to_set());
    }
}

/// The same full-success shape, read off the response's lookup itself:
/// a lookup whose image is the merge of such outcomes holds one entry
/// per requested country — each carrying a requested id — and inside
/// each entry one series per requested indicator.
pub proof fn lemma_full_success_entry_counts(
    d: Seq<CountryEntry>,
    s: Seq<PairOutcomeV>,
    cids: Seq<Seq<char>>,
    iids: Seq<Seq<char>>,
)
    requires
        wf_data(d),
        data_map(d) == merge_outcomes(s),
        cids.no_duplicates(),
        iids.no_duplicates(),
        iids.len() > 0,
        forall|k: int|
            0 <= k < s.len() ==> (#[trigger] s[k]).points is Some && cids.contains(s[k].country_id)
                && iids.contains(s[k].indicator_id),
        forall|ci: int, ii: int|
            #![trigger cids[ci], iids[ii]]
            0 <= ci < cids.len() && 0 <= ii < iids.len() ==> has_success(s, cids[ci], iids[ii]),
    ensures
        d.len() == cids.len(),
        forall|i: int| 0 <= i < d.len() ==> cids.contains((#[trigger] d[i]).country_id@),
        forall|i: int| 0 <= i < d.len() ==> (#[trigger] d[i]).series@.len() == iids.len(),
{
    lemma_full_success_shape(s, cids, iids);
    lemma_data_map_len(d);
    assert(data_map(d).dom().len() == cids.to_set().len());
    cids.unique_seq_to_set();
    assert forall|i: int|
        0 <= i < d.len() implies cids.contains((#[trigger] d[i]).country_id@) && d[i].series@.len()
        == iids.len() by {
        assert forall|j: int|
            i < j < d.len() implies d[j].country_id@ != d[i].country_id@ by {
            assert(d[i].country_id@ != d[j].country_id@);
        }
        lemma_data_map_at(d, i);
        let cid = d[i].country_id@;
        assert(data_map(d).dom().contains(cid));
        assert(cids.to_set().contains(cid));
        let ci = choose|ci: int| 0 <= ci < cids.len() && cids[ci] == cid;
        assert(merge_outcomes(s)[cids[ci]].dom().len() == iids.len());
        assert(series_map(d[i].series@) == merge_outcomes(s)[cid]);
        assert(wf_series(d[i].series@));
        lemma_series_map_len(d[i].series@);
    }
}

} // verus!
