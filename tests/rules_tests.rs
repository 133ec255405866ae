use cloud_lint::rules::{Condition, Pattern, Property, Rule, Selector};

#[test]
fn full_selector_fields() {
    let s = Selector::new("azure.rg.kind.name");
    assert_eq!((s.cloud.as_str(), s.group.as_str(), s.kind.as_str(), s.name.as_str()), ("azure", "rg", "kind", "name"));
    assert_eq!(s.as_str(), "azure.rg.kind.name");
}

#[test]
fn short_selector_defaults_to_wildcards() {
    let s = Selector::new("azure");
    assert_eq!((s.cloud.as_str(), s.group.as_str(), s.kind.as_str(), s.name.as_str()), ("azure", "*", "*", "*"));
}

#[test]
fn selector_keeps_empty_parts_and_ignores_extra_ones() {
    let s = Selector::new("a..b.c.d.e");
    assert_eq!((s.cloud.as_str(), s.group.as_str(), s.kind.as_str(), s.name.as_str()), ("a", "", "b", "c"));
    let e = Selector::new("");
    assert_eq!((e.cloud.as_str(), e.group.as_str()), ("", "*"));
}

#[test]
fn property_tokens() {
    assert_eq!(Property::from_token("name"), Property::Name);
    assert_eq!(Property::from_token("type"), Property::Kind);
    assert_eq!(Property::from_token("group"), Property::Group);
    assert_eq!(Property::from_token("location"), Property::Custom("location".to_owned()));
    assert_eq!(Property::from_token("kind"), Property::Custom("kind".to_owned()));
}

#[test]
fn equal_is_exact_and_case_sensitive() {
    let c = Condition::Equal("uksouth".to_owned());
    assert!(c.is_compliant("uksouth"));
    assert!(!c.is_compliant("UKSouth"));
    assert!(!c.is_compliant("uksouth "));
}

#[test]
fn match_searches_anywhere() {
    let anchored = Condition::Match(Pattern::compile("^[a-z]+$").unwrap());
    assert!(anchored.is_compliant("abc"));
    assert!(!anchored.is_compliant("abc123"));
    let open = Condition::Match(Pattern::compile("abc").unwrap());
    assert!(open.is_compliant("xxabcxx"));
    assert!(!open.is_compliant("xxabxx"));
}

#[test]
fn invalid_pattern_does_not_compile() {
    assert!(Pattern::compile("a(b").is_none());
    assert!(Pattern::compile("").is_some());
}

#[test]
fn conditions_compare_by_text() {
    let a = Condition::Match(Pattern::compile("^a+$").unwrap());
    let b = Condition::Match(Pattern::compile("^a+$").unwrap());
    let c = Condition::Match(Pattern::compile("^a*$").unwrap());
    assert!(a == b);
    assert!(a != c);
    assert!(Condition::Equal("a".to_owned()) != Condition::Match(Pattern::compile("a").unwrap()));
    assert_eq!(a.clone(), a);
}

#[test]
fn rule_descriptions() {
    let r = Rule {
        selector: Selector::new("azure"),
        property: Property::from_token("location"),
        condition: Condition::Equal("uksouth".to_owned()),
    };
    assert_eq!(r.describe(), "Expected Custom(\"location\") to equal uksouth");
    let r = Rule {
        selector: Selector::new("azure"),
        property: Property::Name,
        condition: Condition::Match(Pattern::compile("^[a-z]+$").unwrap()),
    };
    assert_eq!(r.describe(), "Expected Name to match /^[a-z]+$/");
    assert_eq!(r.clone(), r);
}
