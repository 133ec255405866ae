use cloud_lint::azurerm::{listed_texts, parse_id, resources_in, translate_kind, Id, Resource, Value};
use cloud_lint::rules::{Property, Selector};

const SITE_ID: &str = "/subscriptions/00d88f1a-26e6/resourceGroups/test-rg/providers/Microsoft.Web/sites/site1";

fn record(id: &str, location: &str) -> Value {
    Value::Mapping(vec![
        ("id".to_owned(), Value::Str(id.to_owned())),
        ("location".to_owned(), Value::Str(location.to_owned())),
        ("tags".to_owned(), Value::Mapping(vec![])),
    ])
}

#[test]
fn kinds_are_translated() {
    assert_eq!(translate_kind("Microsoft.Web/serverFarms"), "app_service_plan");
    assert_eq!(translate_kind("Microsoft.Web/sites"), "app_service");
    assert_eq!(translate_kind("Microsoft.Storage/storageAccounts"), "Microsoft.Storage/storageAccounts");
}

#[test]
fn identifiers_split_into_parts() {
    let (s, g, p, k, n) = parse_id(SITE_ID).unwrap();
    assert_eq!((s.as_str(), g.as_str(), p.as_str(), k.as_str(), n.as_str()), ("00d88f1a-26e6", "test-rg", "Microsoft.Web", "sites", "site1"));
    let id = Id::parse(SITE_ID).unwrap();
    assert_eq!(id.kind, "app_service");
    assert_eq!(id.resource_group, "test-rg");
    assert_eq!(id.name, "site1");
    let other = Id::parse("/subscriptions/s/resourceGroups/g/providers/Microsoft.Storage/storageAccounts/store 1").unwrap();
    assert_eq!(other.kind, "Microsoft.Storage/storageAccounts");
    assert_eq!(other.name, "store 1");
}

#[test]
fn malformed_identifiers_are_refused() {
    assert!(parse_id("").is_none());
    assert!(parse_id("/subscriptions/s/resourceGroups/g/providers/p/k/").is_none());
    assert!(parse_id("/subscriptions/s/resourceGroups/g/providers/p/k/my_site").is_none());
    assert!(parse_id("/subscriptions/s/resourcegroups/g/providers/p/k/n").is_none());
    assert!(parse_id("/subscriptions/s/resourceGroups/g/providers/p/k/n/extra").is_none());
}

#[test]
fn records_become_resources() {
    let r = Resource::from_record(record(SITE_ID, "uksouth")).unwrap();
    assert_eq!(r.name(), "site1");
    assert_eq!(r.kind(), "app_service");
    assert_eq!(r.group(), "test-rg");
    assert_eq!(r.get_property(&Property::Name), Value::Str("site1".to_owned()));
    assert_eq!(r.get_property(&Property::Kind), Value::Str("app_service".to_owned()));
    assert_eq!(r.get_property(&Property::Group), Value::Str("test-rg".to_owned()));
    assert_eq!(r.get_property(&Property::Custom("location".to_owned())), Value::Str("uksouth".to_owned()));
    assert_eq!(r.get_property(&Property::Custom("tags".to_owned())), Value::Mapping(vec![]));
    assert_eq!(r.get_property(&Property::Custom("absent".to_owned())), Value::Null);
    assert!(Resource::from_record(record("not an id", "uksouth")).is_none());
    assert!(Resource::from_record(Value::Str(SITE_ID.to_owned())).is_none());
}

#[test]
fn wildcard_selectors_apply() {
    let r = Resource::from_record(record(SITE_ID, "uksouth")).unwrap();
    assert!(r.selector_applies(&Selector::new("azure.test-rg")));
    assert!(r.selector_applies(&Selector::new("*.*.*.*")));
    assert!(r.selector_applies(&Selector::new("*")));
    assert!(r.selector_applies(&Selector::new("azure.test-rg.app_service.site1")));
    assert!(!r.selector_applies(&Selector::new("azure.other-rg")));
    assert!(!r.selector_applies(&Selector::new("aws")));
    assert!(!r.selector_applies(&Selector::new("azure.test-rg.app_service.Site1")));
    let s = Resource::from_record(record("/subscriptions/s/resourceGroups/test-rg/providers/P/k/other", "x")).unwrap();
    assert!(s.selector_applies(&Selector::new("azure.test-rg")));
}

#[test]
fn listings_give_their_texts() {
    let body = Value::Mapping(vec![(
        "value".to_owned(),
        Value::Sequence(vec![
            Value::Mapping(vec![("subscriptionId".to_owned(), Value::Str("a".to_owned()))]),
            Value::Mapping(vec![("subscriptionId".to_owned(), Value::Str("b".to_owned()))]),
        ]),
    )]);
    assert_eq!(listed_texts(&body, "subscriptionId"), Some(vec!["a".to_owned(), "b".to_owned()]));
    assert_eq!(listed_texts(&body, "name"), None);
    assert_eq!(listed_texts(&Value::Null, "name"), None);
}

#[test]
fn listings_give_their_resources() {
    let body = Value::Mapping(vec![(
        "value".to_owned(),
        Value::Sequence(vec![
            record(SITE_ID, "uksouth"),
            Value::Mapping(vec![]),
            record("/subscriptions/s/resourceGroups/g/providers/Microsoft.Web/serverFarms/plan", "ukwest"),
        ]),
    )]);
    let rs = resources_in(&body).unwrap();
    assert_eq!(rs.len(), 2);
    assert_eq!(rs[0].name(), "site1");
    assert_eq!(rs[1].kind(), "app_service_plan");
    assert_eq!(rs[1].get_property(&Property::Custom("location".to_owned())), Value::Str("ukwest".to_owned()));
    assert!(resources_in(&Value::Mapping(vec![])).is_none());
}
