use cloud_lint::azurerm::{Id, Resource, Value};
use cloud_lint::compliance::{
    accumulate_group_compliance, azure_lint, classify, evaluate_rules, ResourceGroupCompliance,
    RuleOutcome,
};
use cloud_lint::parser::parse_rules;
use cloud_lint::rules::Property;

const RULES: &str = "azure.test-rg {\n\tlocation = \"uksouth\"\n\tname ~= /^[a-zA-Z0-9]+$/\n}";

fn site(location: Value) -> Resource {
    Resource {
        id: Id {
            subscription_id: "sub".to_owned(),
            resource_group: "test-rg".to_owned(),
            kind: "app_service".to_owned(),
            name: "site1".to_owned(),
        },
        record: Value::Mapping(vec![("location".to_owned(), location)]),
    }
}

#[test]
fn all_rules_met() {
    let rules = parse_rules(RULES).unwrap();
    let rc = evaluate_rules(&site(Value::Str("uksouth".to_owned())), &rules);
    assert_eq!(rc.resource_name, "site1");
    assert_eq!(rc.resource_type, "app_service");
    assert_eq!(rc.compliant_rules.len(), 2);
    assert_eq!(rc.noncompliant_rules.len(), 0);
    assert_eq!(rc.compliant_rules, rules);
}

#[test]
fn location_rule_failed() {
    let rules = parse_rules(RULES).unwrap();
    let rc = evaluate_rules(&site(Value::Str("ukwest".to_owned())), &rules);
    assert_eq!(rc.compliant_rules.len(), 1);
    assert_eq!(rc.noncompliant_rules.len(), 1);
    assert_eq!(rc.noncompliant_rules[0].property, Property::Custom("location".to_owned()));
    assert_eq!(rc.compliant_rules[0].property, Property::Name);

    let before = ResourceGroupCompliance {
        resource_count: 3,
        compliant_resources: 2,
        noncompliant_resources: 1,
        evaluated_rules: 5,
        compliant_rule_evaluations: 4,
        noncompliant_rule_evaluations: 1,
    };
    let after = accumulate_group_compliance(before, &rc);
    assert_eq!(after.resource_count, 4);
    assert_eq!(after.evaluated_rules, 7);
    assert_eq!(after.compliant_rule_evaluations, 5);
    assert_eq!(after.noncompliant_rule_evaluations, 2);
    assert_eq!(after.compliant_resources, 2);
    assert_eq!(after.noncompliant_resources, 2);
}

#[test]
fn non_string_property_is_noncompliant() {
    let rules = parse_rules("azure { location = \"uksouth\" }").unwrap();
    for v in [
        Value::Number("42".to_owned()),
        Value::Bool(true),
        Value::Null,
        Value::Sequence(vec![Value::Str("uksouth".to_owned())]),
        Value::Mapping(vec![]),
    ] {
        let rc = evaluate_rules(&site(v), &rules);
        assert_eq!(rc.compliant_rules.len(), 0);
        assert_eq!(rc.noncompliant_rules.len(), 1);
    }
    let mut missing = site(Value::Null);
    missing.record = Value::Mapping(vec![]);
    let rc = evaluate_rules(&missing, &rules);
    assert_eq!(rc.noncompliant_rules.len(), 1);
}

#[test]
fn rules_that_do_not_apply_are_left_out() {
    let rules = parse_rules(
        "aws { location = \"uksouth\" }\nazure.other-rg { location = \"uksouth\" }\nazure.test-rg.app_service.site2 { location = \"uksouth\" }\n*.*.*.* { location = \"uksouth\" }",
    )
    .unwrap();
    let rc = evaluate_rules(&site(Value::Str("uksouth".to_owned())), &rules);
    assert_eq!(rc.compliant_rules.len(), 1);
    assert_eq!(rc.compliant_rules[0].selector.as_str(), "*.*.*.*");
    assert_eq!(rc.noncompliant_rules.len(), 0);
}

#[test]
fn no_rules_means_no_evaluations() {
    let rules = parse_rules("").unwrap();
    let rc = evaluate_rules(&site(Value::Str("uksouth".to_owned())), &rules);
    assert_eq!(rc.compliant_rules.len() + rc.noncompliant_rules.len(), 0);
    let g = accumulate_group_compliance(ResourceGroupCompliance::default(), &rc);
    assert_eq!(g.evaluated_rules, 0);
    assert_eq!(g.resource_count, 1);
    assert_eq!(g.compliant_resources, 1);
    assert_eq!(g.compliance_percent(), None);
}

#[test]
fn scores_round_to_nearest_percent() {
    let mut g = ResourceGroupCompliance::default();
    assert_eq!(g.compliance_percent(), None);
    g.evaluated_rules = 3;
    g.compliant_rule_evaluations = 2;
    assert_eq!(g.compliance_percent(), Some(67));
    g.evaluated_rules = 8;
    g.compliant_rule_evaluations = 1;
    assert_eq!(g.compliance_percent(), Some(13));
    g.evaluated_rules = 2;
    g.compliant_rule_evaluations = 2;
    assert_eq!(g.compliance_percent(), Some(100));
}

#[test]
fn lint_evaluates_and_tallies_every_resource() {
    let rules = parse_rules(RULES).unwrap();
    let resources = vec![
        site(Value::Str("uksouth".to_owned())),
        site(Value::Str("ukwest".to_owned())),
    ];
    let (each, group) = azure_lint(&rules, &resources);
    assert_eq!(each.len(), 2);
    assert_eq!(each[0].noncompliant_rules.len(), 0);
    assert_eq!(each[1].noncompliant_rules.len(), 1);
    assert_eq!(group.resource_count, 2);
    assert_eq!(group.compliant_resources, 1);
    assert_eq!(group.noncompliant_resources, 1);
    assert_eq!(group.evaluated_rules, 4);
    assert_eq!(group.compliant_rule_evaluations, 3);
    assert_eq!(group.noncompliant_rule_evaluations, 1);
    assert_eq!(group.compliance_percent(), Some(75));
}

#[test]
fn outcomes_of_a_rule() {
    assert_eq!(classify(false, true), RuleOutcome::NotApplicable);
    assert_eq!(classify(false, false), RuleOutcome::NotApplicable);
    assert_eq!(classify(true, true), RuleOutcome::Compliant);
    assert_eq!(classify(true, false), RuleOutcome::Noncompliant);
}

#[test]
fn nested_values_are_copied_whole() {
    let nested = Value::Mapping(vec![(
        "location".to_owned(),
        Value::Sequence(vec![Value::Number("1.5".to_owned()), Value::Mapping(vec![("k".to_owned(), Value::Bool(false))])]),
    )]);
    let r = site(Value::Null);
    let r = Resource { record: nested.clone(), ..r };
    assert_eq!(r.record, nested);
    assert_eq!(
        r.get_property(&Property::Custom("location".to_owned())),
        Value::Sequence(vec![Value::Number("1.5".to_owned()), Value::Mapping(vec![("k".to_owned(), Value::Bool(false))])])
    );
}
