//! Normalization of raw upstream records. A raw country record is kept
//! only when it has an id, a name and a non-empty capital; a missing
//! region defaults to "Unknown". A raw series record is kept only when
//! it has a numeric value and a textual date. The kept records appear in
//! the output in their upstream order, countries as they came, points
//! sorted ascending by year.

use vstd::prelude::*;
use crate::errors::ApiError;
use crate::models::{
    Country, CountryData, CountryV, DataPoint, DataPointV, RawCountry, RawCountryV, RawPoint,
    RawPointV, RawSeriesMeta, countries_view, raw_countries_view, raw_points_view, wf_country,
};
use crate::order::{pts_view, sort_points, sorted_by_year};

verus! {

/// What one raw country record normalizes to: its country, or nothing
/// when the record lacks an id, a name, or a non-empty capital. The
/// code repeats the id; a missing region becomes "Unknown".
pub open spec fn norm_country(r: RawCountryV) -> Option<CountryV> {
    if r.capital is Some && r.capital->0.len() > 0 && r.id is Some && r.name is Some {
        Some(
            CountryV {
                id: r.id->0,
                name: r.name->0,
                region: if r.region is Some {
                    r.region->0
                } else {
                    "Unknown"@
                },
                capital: r.capital->0,
                code: r.id->0,
            },
        )
    } else {
        None
    }
}

/// The normalization of a whole record list: the kept records' images,
/// in order.
pub open spec fn normalized_countries(s: Seq<RawCountryV>) -> Seq<CountryV>
    decreases s.len(),
{
    if s.len() == 0 {
        Seq::empty()
    } else {
        normalized_countries(s.drop_last()) + match norm_country(s.last()) {
            Some(c) => seq![c],
            None => Seq::empty(),
        }
    }
}

proof fn lemma_normalized_countries_take_succ(s: Seq<RawCountryV>, i: int)
    requires
        0 <= i < s.len(),
    ensures
        normalized_countries(s.take(i + 1)) == normalized_countries(s.take(i)) + match norm_country(
            s[i],
        ) {
            Some(c) => seq![c],
            None => Seq::empty(),
        },
{
    assert(s.take(i + 1).drop_last() =~= s.take(i));
    assert(s.take(i + 1).last() == s[i]);
}

/// Every normalized country is well-formed: non-empty capital, code
/// equal to id. In particular no record without a capital, or with an
/// empty one, appears in the output.
pub proof fn lemma_normalized_countries_wf(s: Seq<RawCountryV>)
    ensures
        forall|k: int|
            0 <= k < normalized_countries(s).len() ==> wf_country(
                #[trigger] normalized_countries(s)[k],
            ),
    decreases s.len(),
{
    if s.len() > 0 {
        lemma_normalized_countries_wf(s.drop_last());
        assert forall|k: int| 0 <= k < normalized_countries(s).len() implies wf_country(
            #[trigger] normalized_countries(s)[k],
        ) by {
            let prefix = normalized_countries(s.drop_last());
            if k < prefix.len() {
                assert(normalized_countries(s)[k] == prefix[k]);
            } else {
                assert(norm_country(s.last()) is Some);
            }
        }
    }
}

/// Records that normalization drops contribute nothing: the output of
/// the whole list is the output of its kept records alone.
pub proof fn lemma_dropped_records_vanish(s: Seq<RawCountryV>)
    ensures
        normalized_countries(s) == normalized_countries(
            s.filter(|r: RawCountryV| norm_country(r) is Some),
        ),
    decreases s.len(),
{
    reveal(Seq::filter);
    let pred = |r: RawCountryV| norm_country(r) is Some;
    if s.len() > 0 {
        lemma_dropped_records_vanish(s.drop_last());
        if pred(s.last()) {
            assert(s.filter(pred) == s.drop_last().filter(pred).push(s.last()));
            assert(s.filter(pred).drop_last() =~= s.drop_last().filter(pred));
            assert(s.filter(pred).last() == s.last());
        }
    }
}

/// The image of the kept record `j` stands at position
/// `|normalized(s.take(j))|` of the output. This pins, record by
/// record, which country each kept record became.
pub proof fn lemma_record_image(s: Seq<RawCountryV>, j: int)
    requires
        0 <= j < s.len(),
        norm_country(s[j]) is Some,
    ensures
        normalized_countries(s.take(j)).len() < normalized_countries(s).len(),
        normalized_countries(s)[normalized_countries(s.take(j)).len() as int] == norm_country(
            s[j],
        )->0,
    decreases s.len(),
{
    if j == s.len() - 1 {
        assert(s.take(j) =~= s.drop_last());
    } else {
        lemma_record_image(s.drop_last(), j);
        assert(s.drop_last().take(j) =~= s.take(j));
    }
}

/// A kept record with no region normalizes to the region "Unknown": the
/// country it became carries that default.
pub proof fn lemma_missing_region_defaults(s: Seq<RawCountryV>, j: int)
    requires
        0 <= j < s.len(),
        norm_country(s[j]) is Some,
        s[j].region is None,
    ensures
        normalized_countries(s.take(j)).len() < normalized_countries(s).len(),
        normalized_countries(s)[normalized_countries(s.take(j)).len() as int].region
            == "Unknown"@,
{
    lemma_record_image(s, j);
}

/// Normalizes a list of raw country records, dropping the malformed
/// ones and keeping upstream order.
pub fn normalize_countries(raws: &Vec<RawCountry>) -> (r: Vec<Country>)
    ensures
        countries_view(r@) == normalized_countries(raw_countries_view(raws@)),
{
    let ghost rv = raw_countries_view(raws@);
    let mut out: Vec<Country> = Vec::new();
    proof {
        assert(countries_view(out@) =~= Seq::<CountryV>::empty());
        assert(rv.take(0) =~= Seq::<RawCountryV>::empty());
    }
    for i in 0..raws.len()
        invariant
            rv == raw_countries_view(raws@),
            countries_view(out@) == normalized_countries(rv.take(i as int)),
    {
        let ghost out_before = out@;
        let rc = &raws[i];
        assert(rv[i as int] == rc@);
        match (&rc.id, &rc.name, &rc.capital) {
            (Some(id), Some(name), Some(capital)) => {
                if !capital.as_str().is_empty() {
                    let region = match &rc.region {
                        Some(reg) => reg.clone(),
                        None => "Unknown".to_owned(),
                    };
                    let c = Country {
                        id: id.clone(),
                        name: name.clone(),
                        region,
                        capital: capital.clone(),
                        code: id.clone(),
                    };
                    proof {
                        assert(c@ == norm_country(rv[i as int])->0);
                    }
                    out.push(c);
                }
            },
            _ => {},
        }
        proof {
            lemma_normalized_countries_take_succ(rv, i as int);
            if norm_country(rv[i as int]) is Some {
                assert(countries_view(out@) =~= countries_view(out_before).push(
                    norm_country(rv[i as int])->0,
                ));
                assert(countries_view(out@) =~= normalized_countries(rv.take(i + 1)));
            } else {
                assert(countries_view(out@) =~= normalized_countries(rv.take(i + 1)));
            }
        }
    }
    proof {
        assert(rv.take(raws@.len() as int) =~= rv);
    }
    out
}

/// What one raw series record normalizes to: a point, or nothing when
/// the record lacks a numeric value or a textual date.
pub open spec fn norm_point(r: RawPointV) -> Option<DataPointV> {
    if r.date is Some && r.value is Some {
        Some(DataPointV { year: r.date->0, value: r.value->0 })
    } else {
        None
    }
}

/// The normalization of a whole series record list, in upstream order
/// (before sorting).
pub open spec fn normalized_points(s: Seq<RawPointV>) -> Seq<DataPointV>
    decreases s.len(),
{
    if s.len() == 0 {
        Seq::empty()
    } else {
        normalized_points(s.drop_last()) + match norm_point(s.last()) {
            Some(p) => seq![p],
            None => Seq::empty(),
        }
    }
}

proof fn lemma_normalized_points_take_succ(s: Seq<RawPointV>, i: int)
    requires
        0 <= i < s.len(),
    ensures
        normalized_points(s.take(i + 1)) == normalized_points(s.take(i)) + match norm_point(
            s[i],
        ) {
            Some(p) => seq![p],
            None => Seq::empty(),
        },
{
    assert(s.take(i + 1).drop_last() =~= s.take(i));
    assert(s.take(i + 1).last() == s[i]);
}

/// Every kept point carries the date of some raw record as its year.
pub proof fn lemma_point_years_are_dates(s: Seq<RawPointV>)
    ensures
        forall|k: int|
            0 <= k < normalized_points(s).len() ==> exists|j: int|
                0 <= j < s.len() && s[j].date == Some(
                    (#[trigger] normalized_points(s)[k]).year,
                ),
    decreases s.len(),
{
    if s.len() > 0 {
        lemma_point_years_are_dates(s.drop_last());
        assert forall|k: int| 0 <= k < normalized_points(s).len() implies exists|j: int|
            0 <= j < s.len() && s[j].date == Some((#[trigger] normalized_points(s)[k]).year) by {
            let prefix = normalized_points(s.drop_last());
            if k < prefix.len() {
                let j = choose|j: int|
                    0 <= j < s.drop_last().len() && s.drop_last()[j].date == Some(prefix[k].year);
                assert(s[j].date == Some(normalized_points(s)[k].year));
            } else {
                assert(norm_point(s.last()) is Some);
                assert(s[s.len() - 1].date == Some(normalized_points(s)[k].year));
            }
        }
    }
}

/// A four-character year text: exactly four decimal digits.
pub open spec fn is_year_text(s: Seq<char>) -> bool {
    s.len() == 4 && forall|k: int|
        0 <= k < 4 ==> ('0' as u32) <= ((#[trigger] s[k]) as u32) <= ('9' as u32)
}

/// When every raw date is a four-digit year text, so is the year of
/// every point of the built series: the sorted data holds exactly the
/// kept points, and each kept year is one of the raw dates.
pub proof fn lemma_series_years_digits(data: Seq<DataPointV>, raws: Seq<RawPointV>)
    requires
        data.to_multiset() == normalized_points(raws).to_multiset(),
        forall|j: int|
            0 <= j < raws.len() ==> ((#[trigger] raws[j]).date matches Some(d) ==> is_year_text(
                d,
            )),
    ensures
        forall|k: int| 0 <= k < data.len() ==> is_year_text((#[trigger] data[k]).year),
{
    broadcast use vstd::seq_lib::group_to_multiset_ensures;

    lemma_point_years_are_dates(raws);
    let pts = normalized_points(raws);
    assert forall|k: int| 0 <= k < data.len() implies is_year_text((#[trigger] data[k]).year) by {
        assert(data.contains(data[k]));
        assert(data.to_multiset().count(data[k]) > 0);
        assert(pts.contains(data[k]));
        let m = choose|m: int| 0 <= m < pts.len() && pts[m] == data[k];
        let j = choose|j: int| 0 <= j < raws.len() && raws[j].date == Some(pts[m].year);
        assert(raws[j].date matches Some(d) ==> is_year_text(d));
    }
}

/// Normalizes a list of raw series records, dropping the malformed
/// ones and keeping upstream order.
fn clean_points(raws: &Vec<RawPoint>) -> (r: Vec<DataPoint>)
    ensures
        pts_view(r@) == normalized_points(raw_points_view(raws@)),
{
    let ghost rv = raw_points_view(raws@);
    let mut out: Vec<DataPoint> = Vec::new();
    proof {
        assert(pts_view(out@) =~= Seq::<DataPointV>::empty());
        assert(rv.take(0) =~= Seq::<RawPointV>::empty());
    }
    for i in 0..raws.len()
        invariant
            rv == raw_points_view(raws@),
            pts_view(out@) == normalized_points(rv.take(i as int)),
    {
        let ghost out_before = out@;
        let rp = &raws[i];
        assert(rv[i as int] == rp@);
        match (&rp.date, &rp.value) {
            (Some(date), Some(value)) => {
                let p = DataPoint { year: date.clone(), value: value.clone() };
                proof {
                    assert(p@ == norm_point(rv[i as int])->0);
                }
                out.push(p);
            },
            _ => {},
        }
        proof {
            lemma_normalized_points_take_succ(rv, i as int);
            if norm_point(rv[i as int]) is Some {
                assert(pts_view(out@) =~= pts_view(out_before).push(norm_point(rv[i as int])->0));
                assert(pts_view(out@) =~= normalized_points(rv.take(i + 1)));
            } else {
                assert(pts_view(out@) =~= normalized_points(rv.take(i + 1)));
            }
        }
    }
    proof {
        assert(rv.take(raws@.len() as int) =~= rv);
    }
    out
}

/// A display name defaults to "Unknown" when the reply carried none.
pub open spec fn name_or_unknown(o: Option<String>) -> Seq<char> {
    match o {
        Some(s) => s@,
        None => "Unknown"@,
    }
}

/// Builds the series for one country and indicator from the raw parts
/// of an upstream reply: keeps the usable points, sorts them ascending
/// by year, and fails with `NoDataAvailable` exactly when none remain.
pub fn build_country_data(
    country_id: &str,
    indicator_id: &str,
    meta: RawSeriesMeta,
    raws: Vec<RawPoint>,
) -> (r: Result<CountryData, ApiError>)
    ensures
        ({
            let pts = normalized_points(raw_points_view(raws@));
            &&& (r is Ok <==> pts.len() > 0)
            &&& (r matches Err(e) ==> e is NoDataAvailable)
            &&& (r matches Ok(cd) ==> {
                &&& cd.country_id@ == country_id@
                &&& cd.indicator_id@ == indicator_id@
                &&& cd.country_name@ == name_or_unknown(meta.country_name)
                &&& cd.indicator_name@ == name_or_unknown(meta.indicator_name)
                &&& cd.data@.len() == pts.len()
                &&& cd.data@.len() > 0
                &&& sorted_by_year(pts_view(cd.data@))
                &&& pts_view(cd.data@).to_multiset() == pts.to_multiset()
            })
        }),
{
    let cleaned = clean_points(&raws);
    let data = sort_points(cleaned);
    if data.len() == 0 {
        return Err(ApiError::NoDataAvailable);
    }
    let country_name = match meta.country_name {
        Some(s) => s,
        None => "Unknown".to_owned(),
    };
    let indicator_name = match meta.indicator_name {
        Some(s) => s,
        None => "Unknown".to_owned(),
    };
    Ok(
        CountryData {
            country_id: country_id.to_owned(),
            country_name,
            indicator_id: indicator_id.to_owned(),
            indicator_name,
            data,
        },
    )
}

} // verus!
