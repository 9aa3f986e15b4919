//! The fixed indicator catalog: four categories of four indicators each,
//! the single source of truth mapping display labels and units to the
//! upstream indicator codes. It is never fetched and never mutated.

use vstd::prelude::*;
use crate::models::{Indicator, IndicatorCategory, IndicatorCategoryV, IndicatorV};

verus! {

/// One catalog entry has exactly these four fields.
pub open spec fn indicator_is(
    i: IndicatorV,
    id: Seq<char>,
    name: Seq<char>,
    category: Seq<char>,
    unit: Seq<char>,
) -> bool {
    &&& i.id == id
    &&& i.name == name
    &&& i.category == category
    &&& i.unit == unit
}

/// The full content of the catalog, entry by entry. Any two values
/// satisfying this predicate are equal, which makes `get_indicators`
/// deterministic by contract.
pub open spec fn is_catalog(c: IndicatorCategoryV) -> bool {
    &&& c.economic.len() == 4
    &&& indicator_is(
        c.economic[0],
        "NY.GDP.MKTP.CD"@,
        "GDP (current US$)"@,
        "economic"@,
        "USD"@,
    )
    &&& indicator_is(
        c.economic[1],
        "NY.GDP.PCAP.CD"@,
        "GDP per capita (current US$)"@,
        "economic"@,
        "USD"@,
    )
    &&& indicator_is(
        c.economic[2],
        "FP.CPI.TOTL.ZG"@,
        "Inflation, consumer prices (annual %)"@,
        "economic"@,
        "%"@,
    )
    &&& indicator_is(
        c.economic[3],
        "GC.DOD.TOTL.GD.ZS"@,
        "Government debt (% of GDP)"@,
        "economic"@,
        "%"@,
    )
    &&& c.demographic.len() == 4
    &&& indicator_is(
        c.demographic[0],
        "SP.POP.TOTL"@,
        "Total population"@,
        "demographic"@,
        "people"@,
    )
    &&& indicator_is(
        c.demographic[1],
        "SP.URB.TOTL.IN.ZS"@,
        "Urban population (% of total)"@,
        "demographic"@,
        "%"@,
    )
    &&& indicator_is(
        c.demographic[2],
        "SP.DYN.CDRT.IN"@,
        "Death rate (per 1,000 people)"@,
        "demographic"@,
        "per 1,000"@,
    )
    &&& indicator_is(
        c.demographic[3],
        "SP.DYN.CBRT.IN"@,
        "Birth rate (per 1,000 people)"@,
        "demographic"@,
        "per 1,000"@,
    )
    &&& c.social.len() == 4
    &&& indicator_is(
        c.social[0],
        "SE.ADT.LITR.ZS"@,
        "Literacy rate (% of population)"@,
        "social"@,
        "%"@,
    )
    &&& indicator_is(
        c.social[1],
        "SE.ADT.LITR.FE.ZS"@,
        "Literacy rate, female (% of females)"@,
        "social"@,
        "%"@,
    )
    &&& indicator_is(
        c.social[2],
        "SE.ADT.LITR.MA.ZS"@,
        "Literacy rate, male (% of males)"@,
        "social"@,
        "%"@,
    )
    &&& indicator_is(
        c.social[3],
        "SL.UEM.TOTL.ZS"@,
        "Unemployment, total (% of labor force)"@,
        "social"@,
        "%"@,
    )
    &&& c.environmental.len() == 4
    &&& indicator_is(
        c.environmental[0],
        "EN.ATM.CO2E.PC"@,
        "CO2 emissions (metric tons per capita)"@,
        "environmental"@,
        "metric tons"@,
    )
    &&& indicator_is(
        c.environmental[1],
        "EG.USE.PCAP.KG.OE"@,
        "Energy use (kg of oil equivalent per capita)"@,
        "environmental"@,
        "kg"@,
    )
    &&& indicator_is(
        c.environmental[2],
        "AG.LND.FRST.ZS"@,
        "Forest area (% of land area)"@,
        "environmental"@,
        "%"@,
    )
    &&& indicator_is(
        c.environmental[3],
        "NY.ADJ.RNRW.GN.ZS"@,
        "Adjusted savings: natural resources depletion (% GNI)"@,
        "environmental"@,
        "%"@,
    )
}

fn entry(id: &str, name: &str, category: &str, unit: &str) -> (i: Indicator)
    ensures
        indicator_is(i@, id@, name@, category@, unit@),
{
    Indicator {
        id: id.to_owned(),
        name: name.to_owned(),
        category: category.to_owned(),
        unit: unit.to_owned(),
    }
}

/// The catalog. Pure and deterministic: the contract pins every entry,
/// so two calls always return equal values.
pub fn get_indicators() -> (r: IndicatorCategory)
    ensures
        is_catalog(r@),
{
    let economic = vec![
        entry("NY.GDP.MKTP.CD", "GDP (current US$)", "economic", "USD"),
        entry("NY.GDP.PCAP.CD", "GDP per capita (current US$)", "economic", "USD"),
        entry("FP.CPI.TOTL.ZG", "Inflation, consumer prices (annual %)", "economic", "%"),
        entry("GC.DOD.TOTL.GD.ZS", "Government debt (% of GDP)", "economic", "%"),
    ];
    let demographic = vec![
        entry("SP.POP.TOTL", "Total population", "demographic", "people"),
        entry("SP.URB.TOTL.IN.ZS", "Urban population (% of total)", "demographic", "%"),
        entry("SP.DYN.CDRT.IN", "Death rate (per 1,000 people)", "demographic", "per 1,000"),
        entry("SP.DYN.CBRT.IN", "Birth rate (per 1,000 people)", "demographic", "per 1,000"),
    ];
    let social = vec![
        entry("SE.ADT.LITR.ZS", "Literacy rate (% of population)", "social", "%"),
        entry("SE.ADT.LITR.FE.ZS", "Literacy rate, female (% of females)", "social", "%"),
        entry("SE.ADT.LITR.MA.ZS", "Literacy rate, male (% of males)", "social", "%"),
        entry("SL.UEM.TOTL.ZS", "Unemployment, total (% of labor force)", "social", "%"),
    ];
    let environmental = vec![
        entry("EN.ATM.CO2E.PC", "CO2 emissions (metric tons per capita)", "environmental", "metric tons"),
        entry(
            "EG.USE.PCAP.KG.OE",
            "Energy use (kg of oil equivalent per capita)",
            "environmental",
            "kg",
        ),
        entry("AG.LND.FRST.ZS", "Forest area (% of land area)", "environmental", "%"),
        entry(
            "NY.ADJ.RNRW.GN.ZS",
            "Adjusted savings: natural resources depletion (% GNI)",
            "environmental",
            "%",
        ),
    ];
    IndicatorCategory { economic, demographic, social, environmental }
}

/// The catalog listing is pure: any two values that meet its contract
/// are the same structure, field for field.
pub proof fn lemma_catalog_deterministic(a: IndicatorCategoryV, b: IndicatorCategoryV)
    requires
        is_catalog(a),
        is_catalog(b),
    ensures
        a == b,
{
    assert(a.economic =~~= b.economic);
    assert(a.demographic =~~= b.demographic);
    assert(a.social =~~= b.social);
    assert(a.environmental =~~= b.environmental);
    assert(a =~~= b);
}

} // verus!
