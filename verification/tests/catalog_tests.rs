use world_indicators::catalog::get_indicators;

#[test]
fn catalog_has_four_categories_of_four() {
    let c = get_indicators();
    assert_eq!(c.economic.len(), 4);
    assert_eq!(c.demographic.len(), 4);
    assert_eq!(c.social.len(), 4);
    assert_eq!(c.environmental.len(), 4);
}

#[test]
fn catalog_entries_are_exact() {
    let c = get_indicators();
    assert_eq!(c.economic[0].id, "NY.GDP.MKTP.CD");
    assert_eq!(c.economic[0].name, "GDP (current US$)");
    assert_eq!(c.economic[0].category, "economic");
    assert_eq!(c.economic[0].unit, "USD");
    assert_eq!(c.demographic[0].id, "SP.POP.TOTL");
    assert_eq!(c.demographic[0].name, "Total population");
    assert_eq!(c.demographic[0].unit, "people");
    assert_eq!(c.social[3].id, "SL.UEM.TOTL.ZS");
    assert_eq!(c.social[3].unit, "%");
    assert_eq!(c.environmental[3].id, "NY.ADJ.RNRW.GN.ZS");
    assert_eq!(
        c.environmental[3].name,
        "Adjusted savings: natural resources depletion (% GNI)"
    );
}

#[test]
fn catalog_categories_are_labelled() {
    let c = get_indicators();
    for i in &c.economic {
        assert_eq!(i.category, "economic");
    }
    for i in &c.demographic {
        assert_eq!(i.category, "demographic");
    }
    for i in &c.social {
        assert_eq!(i.category, "social");
    }
    for i in &c.environmental {
        assert_eq!(i.category, "environmental");
    }
}

#[test]
fn list_indicators_is_idempotent() {
    let a = get_indicators();
    let b = get_indicators();
    assert_eq!(a, b);
}
