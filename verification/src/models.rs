//! Data model: countries, indicators, time-series points, and the request
//! and response shapes of the comparison pipeline.
//!
//! Each executable type has a mathematical image (its `View`) over `Seq<char>`
//! and `Seq` values; the contracts of the library speak of those images.

use vstd::prelude::*;

verus! {

/// A country as the catalog exposes it. `id` and `code` carry the same
/// alpha code; `capital` is non-empty for every country the normalization
/// layer lets through (aggregate regions have no capital and are dropped).
#[derive(Debug, Clone, PartialEq, Eq)]
pub struct Country {
    pub id: String,
    pub name: String,
    pub region: String,
    pub capital: String,
    pub code: String,
}

/// Mathematical image of a `Country`.
#[verifier::ext_equal]
pub struct CountryV {
    pub id: Seq<char>,
    pub name: Seq<char>,
    pub region: Seq<char>,
    pub capital: Seq<char>,
    pub code: Seq<char>,
}

impl View for Country {
    type V = CountryV;

    open spec fn view(&self) -> CountryV {
        CountryV {
            id: self.id@,
            name: self.name@,
            region: self.region@,
            capital: self.capital@,
            code: self.code@,
        }
    }
}

impl Country {
    /// An equal copy.
    pub fn duplicate(&self) -> (r: Country)
        ensures
            r == *self,
    {
        Country {
            id: self.id.clone(),
            name: self.name.clone(),
            region: self.region.clone(),
            capital: self.capital.clone(),
            code: self.code.clone(),
        }
    }
}

/// A well-formed country: the code repeats the id and the capital is
/// non-empty, which is exactly what normalization guarantees.
pub open spec fn wf_country(c: CountryV) -> bool {
    &&& c.code == c.id
    &&& c.capital.len() > 0
}

/// One entry of the fixed indicator catalog.
#[derive(Debug, Clone, PartialEq, Eq)]
pub struct Indicator {
    pub id: String,
    pub name: String,
    pub category: String,
    pub unit: String,
}

/// Mathematical image of an `Indicator`.
#[verifier::ext_equal]
pub struct IndicatorV {
    pub id: Seq<char>,
    pub name: Seq<char>,
    pub category: Seq<char>,
    pub unit: Seq<char>,
}

impl View for Indicator {
    type V = IndicatorV;

    open spec fn view(&self) -> IndicatorV {
        IndicatorV { id: self.id@, name: self.name@, category: self.category@, unit: self.unit@ }
    }
}

/// The catalog: four fixed categories of four indicators each.
#[derive(Debug, Clone, PartialEq, Eq)]
pub struct IndicatorCategory {
    pub economic: Vec<Indicator>,
    pub demographic: Vec<Indicator>,
    pub social: Vec<Indicator>,
    pub environmental: Vec<Indicator>,
}

/// Mathematical image of an `IndicatorCategory`.
#[verifier::ext_equal]
pub struct IndicatorCategoryV {
    pub economic: Seq<IndicatorV>,
    pub demographic: Seq<IndicatorV>,
    pub social: Seq<IndicatorV>,
    pub environmental: Seq<IndicatorV>,
}

impl View for IndicatorCategory {
    type V = IndicatorCategoryV;

    open spec fn view(&self) -> IndicatorCategoryV {
        IndicatorCategoryV {
            economic: self.economic@.map_values(|i: Indicator| i@),
            demographic: self.demographic@.map_values(|i: Indicator| i@),
            social: self.social@.map_values(|i: Indicator| i@),
            environmental: self.environmental@.map_values(|i: Indicator| i@),
        }
    }
}

/// One point of a series. `year` is the upstream calendar-year text;
/// `value` carries the decimal text of the upstream number. The library
/// orders points by `year` and never computes with `value`.
#[derive(Debug, Clone, PartialEq, Eq)]
pub struct DataPoint {
    pub year: String,
    pub value: String,
}

/// Mathematical image of a `DataPoint`.
#[verifier::ext_equal]
pub struct DataPointV {
    pub year: Seq<char>,
    pub value: Seq<char>,
}

impl View for DataPoint {
    type V = DataPointV;

    open spec fn view(&self) -> DataPointV {
        DataPointV { year: self.year@, value: self.value@ }
    }
}

impl DataPoint {
    /// An equal copy.
    pub fn duplicate(&self) -> (r: DataPoint)
        ensures
            r == *self,
    {
        DataPoint { year: self.year.clone(), value: self.value.clone() }
    }
}

/// An equal copy of a point list.
pub fn copy_points(points: &Vec<DataPoint>) -> (r: Vec<DataPoint>)
    ensures
        r@ == points@,
{
    let mut out: Vec<DataPoint> = Vec::new();
    for i in 0..points.len()
        invariant
            out@ =~= points@.take(i as int),
    {
        out.push(points[i].duplicate());
        proof {
            assert(out@ =~= points@.take(i + 1));
        }
    }
    proof {
        assert(points@.take(points@.len() as int) =~= points@);
    }
    out
}

/// A full series for one country and indicator, with display names and
/// the points sorted ascending by year. `data` is never empty: a series
/// with no usable points is an error, not an empty success.
#[derive(Debug, Clone, PartialEq, Eq)]
pub struct CountryData {
    pub country_id: String,
    pub country_name: String,
    pub indicator_id: String,
    pub indicator_name: String,
    pub data: Vec<DataPoint>,
}

/// A comparison request: lists of country ids and indicator ids. The
/// library validates neither length nor duplicates.
#[derive(Debug, Clone, PartialEq, Eq)]
pub struct ComparisonRequest {
    pub countries: Vec<String>,
    pub indicators: Vec<String>,
}

/// The series of one indicator inside a comparison response.
#[derive(Debug, Clone, PartialEq, Eq)]
pub struct SeriesEntry {
    pub indicator_id: String,
    pub points: Vec<DataPoint>,
}

/// All series of one country inside a comparison response.
#[derive(Debug, Clone, PartialEq, Eq)]
pub struct CountryEntry {
    pub country_id: String,
    pub series: Vec<SeriesEntry>,
}

/// The comparison result: the requested countries that the catalog knows,
/// in request order, and a nested lookup of the pairs whose fetch
/// succeeded. The nested lookup is an association list with unique keys;
/// its mathematical image is a `Map` of `Map`s.
#[derive(Debug, Clone, PartialEq, Eq)]
pub struct ComparisonResponse {
    pub countries: Vec<Country>,
    pub data: Vec<CountryEntry>,
}

/// The body shape of an error reply.
#[derive(Debug, Clone, PartialEq, Eq)]
pub struct ErrorResponse {
    pub error: String,
    pub message: String,
}

/// A saved comparison: a capped, most-recent-first list of these lives
/// client-side.
#[derive(Debug, Clone, PartialEq, Eq)]
pub struct Favorite {
    pub id: String,
    pub countries: Vec<Country>,
    pub indicator: Indicator,
    pub timestamp: String,
}

/// A raw country record as the upstream source sends it: every consumed
/// field may be missing.
#[derive(Debug, Clone, PartialEq, Eq)]
pub struct RawCountry {
    pub id: Option<String>,
    pub name: Option<String>,
    pub region: Option<String>,
    pub capital: Option<String>,
}

/// Mathematical image of a `RawCountry`.
#[verifier::ext_equal]
pub struct RawCountryV {
    pub id: Option<Seq<char>>,
    pub name: Option<Seq<char>>,
    pub region: Option<Seq<char>>,
    pub capital: Option<Seq<char>>,
}

impl View for RawCountry {
    type V = RawCountryV;

    open spec fn view(&self) -> RawCountryV {
        RawCountryV {
            id: match self.id {
                Some(ref s) => Some(s@),
                None => None,
            },
            name: match self.name {
                Some(ref s) => Some(s@),
                None => None,
            },
            region: match self.region {
                Some(ref s) => Some(s@),
                None => None,
            },
            capital: match self.capital {
                Some(ref s) => Some(s@),
                None => None,
            },
        }
    }
}

/// A raw series record as the upstream source sends it: a date that may
/// be missing or non-textual, and a value that may be missing or
/// non-numeric (carried as decimal text when present).
#[derive(Debug, Clone, PartialEq, Eq)]
pub struct RawPoint {
    pub date: Option<String>,
    pub value: Option<String>,
}

/// Mathematical image of a `RawPoint`.
#[verifier::ext_equal]
pub struct RawPointV {
    pub date: Option<Seq<char>>,
    pub value: Option<Seq<char>>,
}

impl View for RawPoint {
    type V = RawPointV;

    open spec fn view(&self) -> RawPointV {
        RawPointV {
            date: match self.date {
                Some(ref s) => Some(s@),
                None => None,
            },
            value: match self.value {
                Some(ref s) => Some(s@),
                None => None,
            },
        }
    }
}

/// The image of a country list.
pub open spec fn countries_view(s: Seq<Country>) -> Seq<CountryV> {
    s.map_values(|c: Country| c@)
}

/// The image of a raw country record list.
pub open spec fn raw_countries_view(s: Seq<RawCountry>) -> Seq<RawCountryV> {
    s.map_values(|r: RawCountry| r@)
}

/// The image of a raw point list.
pub open spec fn raw_points_view(s: Seq<RawPoint>) -> Seq<RawPointV> {
    s.map_values(|r: RawPoint| r@)
}

/// The image of a list of id strings.
pub open spec fn strings_view(s: Seq<String>) -> Seq<Seq<char>> {
    s.map_values(|x: String| x@)
}

/// The display names read from the first record of a series reply, when
/// that record carries them.
#[derive(Debug, Clone, PartialEq, Eq)]
pub struct RawSeriesMeta {
    pub country_name: Option<String>,
    pub indicator_name: Option<String>,
}

} // verus!
