//! Turning an upstream reply into library values. A reply is a
//! two-element JSON array of metadata and records; this module parses
//! the reply text, extracts the consumed fields of each record into
//! plain raw-record values, and hands those to the normalization layer.
//! The JSON value itself stays opaque: everything the library proves
//! holds for every record list the extraction can produce.

use vstd::prelude::*;
use crate::errors::ApiError;
use crate::json::{
    json_as_array, json_as_string, json_get_index, json_get_key, json_number_text, json_parse,
    json_wf,
};
use crate::models::{
    Country, CountryData, RawCountry, RawPoint, RawSeriesMeta, countries_view, wf_country,
};
use crate::normalize::{
    build_country_data, lemma_normalized_countries_wf, normalize_countries,
};
use crate::order::{pts_view, sorted_by_year};

verus! {

/// The string field of an object value, when present.
fn str_field(v: &serde_json::Value, key: &str) -> Option<String> {
    match json_get_key(v, key) {
        Some(f) => json_as_string(f),
        None => None,
    }
}

/// The string field of an object inside an object value, when present.
fn nested_str_field(v: &serde_json::Value, outer: &str, inner: &str) -> Option<String> {
    match json_get_key(v, outer) {
        Some(o) => str_field(o, inner),
        None => None,
    }
}

/// The records array of a reply: element 1 of the top-level array, when
/// it is an array; otherwise no records.
fn reply_records<'a>(reply: &'a serde_json::Value) -> Option<&'a Vec<serde_json::Value>> {
    match json_get_index(reply, 1) {
        Some(second) => json_as_array(second),
        None => None,
    }
}

/// The consumed fields of every country record, in reply order.
fn raw_countries_of(records: &Vec<serde_json::Value>) -> Vec<RawCountry> {
    let mut out: Vec<RawCountry> = Vec::new();
    for i in 0..records.len() {
        let c = &records[i];
        out.push(
            RawCountry {
                id: str_field(c, "id"),
                name: str_field(c, "name"),
                region: nested_str_field(c, "region", "value"),
                capital: str_field(c, "capitalCity"),
            },
        );
    }
    out
}

/// The consumed fields of every series record, in reply order.
fn raw_points_of(records: &Vec<serde_json::Value>) -> Vec<RawPoint> {
    let mut out: Vec<RawPoint> = Vec::new();
    for i in 0..records.len() {
        let p = &records[i];
        let value = match json_get_key(p, "value") {
            Some(v) => json_number_text(v),
            None => None,
        };
        out.push(RawPoint { date: str_field(p, "date"), value });
    }
    out
}

/// The display names carried by the first series record, when any.
fn series_meta_of(records: &Vec<serde_json::Value>) -> RawSeriesMeta {
    if records.len() == 0 {
        return RawSeriesMeta { country_name: None, indicator_name: None };
    }
    let first = &records[0];
    RawSeriesMeta {
        country_name: nested_str_field(first, "country", "value"),
        indicator_name: nested_str_field(first, "indicator", "value"),
    }
}

/// Turns the text of an upstream country reply into the normalized
/// country list. Fails exactly when the text is not JSON; a reply
/// without a records array yields an empty list, and every country
/// returned is well-formed.
pub fn countries_from_reply(text: &str) -> (r: Result<Vec<Country>, ApiError>)
    ensures
        r is Ok <==> json_wf(text@),
        (r matches Ok(cs) ==> forall|k: int|
            0 <= k < cs@.len() ==> wf_country(#[trigger] countries_view(cs@)[k])),
        (r matches Err(e) ==> e is ExternalApiError),
{
    let reply = match json_parse(text) {
        Some(v) => v,
        None => {
            return Err(ApiError::ExternalApiError("upstream reply is not JSON".to_owned()));
        },
    };
    let raws = match reply_records(&reply) {
        Some(records) => raw_countries_of(records),
        None => Vec::new(),
    };
    let out = normalize_countries(&raws);
    proof {
        lemma_normalized_countries_wf(crate::models::raw_countries_view(raws@));
    }
    Ok(out)
}

/// Turns the text of an upstream series reply into the series for one
/// country and indicator. Fails with `ExternalApiError` exactly when
/// the text is not JSON, with `NoDataAvailable` exactly when no usable
/// point remains after filtering; a success carries the requested ids
/// and a non-empty point list sorted ascending by year.
pub fn series_from_reply(country_id: &str, indicator_id: &str, text: &str) -> (r: Result<
    CountryData,
    ApiError,
>)
    ensures
        (r matches Err(e) && e is ExternalApiError) <==> !json_wf(text@),
        (r matches Ok(cd) ==> {
            &&& cd.country_id@ == country_id@
            &&& cd.indicator_id@ == indicator_id@
            &&& cd.data@.len() > 0
            &&& sorted_by_year(pts_view(cd.data@))
        }),
        (r matches Err(e) ==> e is NoDataAvailable || e is ExternalApiError),
{
    let reply = match json_parse(text) {
        Some(v) => v,
        None => {
            return Err(ApiError::ExternalApiError("upstream reply is not JSON".to_owned()));
        },
    };
    let (meta, raws) = match reply_records(&reply) {
        Some(records) => (series_meta_of(records), raw_points_of(records)),
        None => (RawSeriesMeta { country_name: None, indicator_name: None }, Vec::new()),
    };
    build_country_data(country_id, indicator_id, meta, raws)
}

} // verus!
