use cloud_lint::parser::{
    block_at, condition_line_at, condition_tail_at, parse_rules, run1_end, ConditionSource,
    LineSource, ParseError, RuleSource,
};
use cloud_lint::rules::{Condition, Property, Rule, Selector};
use cloud_lint::text::{chars_of, CharClass};

fn rule(selector: &str, property: &str, condition: Condition) -> Rule {
    Rule {
        selector: Selector::new(selector),
        property: Property::from_token(property),
        condition,
    }
}

fn pattern(p: &str) -> Condition {
    Condition::Match(cloud_lint::rules::Pattern::compile(p).unwrap())
}

fn equal(v: &str) -> Condition {
    Condition::Equal(v.to_owned())
}

#[test]
fn test_selector() {
    for text in ["azure.test-rg", "azure.test_rg", "azure.test-rg-123", "azure.test_rg_123"] {
        let cs = chars_of(text);
        assert_eq!(run1_end(&cs, 0, CharClass::SelectorChar), Some(cs.len()));
        let sel = Selector::new(text);
        assert_eq!(sel.as_str(), text);
    }
    let sel = Selector::new("azure.test-rg");
    assert_eq!(sel.cloud, "azure");
    assert_eq!(sel.group, "test-rg");
}

#[test]
fn test_equal_rule() {
    let text = "= \"azure\"";
    let cs = chars_of(text);
    assert_eq!(
        condition_tail_at(&cs, text, 0),
        Some((cs.len(), ConditionSource::Equal("azure".to_owned())))
    );
}

#[test]
fn test_match_rule() {
    let text = "~= /^[a-z]+$/";
    let cs = chars_of(text);
    assert_eq!(
        condition_tail_at(&cs, text, 0),
        Some((cs.len(), ConditionSource::Match("^[a-z]+$".to_owned())))
    );
}

#[test]
fn test_rule_condition() {
    let text = "location = \"uksouth\"";
    let cs = chars_of(text);
    assert_eq!(
        condition_line_at(&cs, text, 0),
        Some((
            cs.len(),
            LineSource {
                property: "location".to_owned(),
                condition: ConditionSource::Equal("uksouth".to_owned())
            }
        ))
    );

    let text = "name ~= /^[a-zA-Z0-9]+$/";
    let cs = chars_of(text);
    assert_eq!(
        condition_line_at(&cs, text, 0),
        Some((
            cs.len(),
            LineSource {
                property: "name".to_owned(),
                condition: ConditionSource::Match("^[a-zA-Z0-9]+$".to_owned())
            }
        ))
    );
}

fn source(sel: &str, prop: &str, condition: ConditionSource) -> RuleSource {
    RuleSource { selector: sel.to_owned(), property: prop.to_owned(), condition }
}

#[test]
fn test_rule_block() {
    let text = "azure.test-rg { location = \"uksouth\" }";
    let cs = chars_of(text);
    assert_eq!(
        block_at(&cs, text, 0),
        Some((
            cs.len(),
            vec![source("azure.test-rg", "location", ConditionSource::Equal("uksouth".to_owned()))]
        ))
    );

    let text = "azure.test-rg {\n\tlocation = \"uksouth\"\n}";
    let cs = chars_of(text);
    assert_eq!(
        block_at(&cs, text, 0),
        Some((
            cs.len(),
            vec![source("azure.test-rg", "location", ConditionSource::Equal("uksouth".to_owned()))]
        ))
    );

    let text = "azure.test-rg {\n\tlocation = \"uksouth\"\n\tname ~= /^[a-zA-Z0-9]+$/\n}";
    let cs = chars_of(text);
    assert_eq!(
        block_at(&cs, text, 0),
        Some((
            cs.len(),
            vec![
                source("azure.test-rg", "location", ConditionSource::Equal("uksouth".to_owned())),
                source("azure.test-rg", "name", ConditionSource::Match("^[a-zA-Z0-9]+$".to_owned())),
            ]
        ))
    );
}

#[test]
fn two_conditions_parse_in_order() {
    let text = "azure.test-rg {\n\tlocation = \"uksouth\"\n\tname ~= /^[a-zA-Z0-9]+$/\n}";
    let rules = parse_rules(text).unwrap();
    assert_eq!(rules.len(), 2);
    assert_eq!(rules[0], rule("azure.test-rg", "location", equal("uksouth")));
    assert_eq!(rules[1], rule("azure.test-rg", "name", pattern("^[a-zA-Z0-9]+$")));
    for r in &rules {
        assert_eq!(r.selector.cloud, "azure");
        assert_eq!(r.selector.group, "test-rg");
        assert_eq!(r.selector.kind, "*");
        assert_eq!(r.selector.name, "*");
    }
    assert_eq!(rules[0].property, Property::Custom("location".to_owned()));
    assert_eq!(rules[1].property, Property::Name);
}

#[test]
fn blocks_and_comments_interleave() {
    let text = "// leading comment\n\nazure {\n\tlocation = \"uksouth\"// trailing\n\t// between\n\ttype = \"app\"\n}\n// between blocks\nazure.rg.kind.site {\n name ~= /abc/\n}\n\n";
    let rules = parse_rules(text).unwrap();
    assert_eq!(rules.len(), 3);
    assert_eq!(rules[0], rule("azure", "location", equal("uksouth")));
    assert_eq!(rules[1], rule("azure", "type", equal("app")));
    assert_eq!(rules[1].property, Property::Kind);
    assert_eq!(rules[2], rule("azure.rg.kind.site", "name", pattern("abc")));
}

#[test]
fn empty_file_has_no_rules() {
    assert_eq!(parse_rules("").unwrap().len(), 0);
    assert_eq!(parse_rules("  \n\t\n").unwrap().len(), 0);
    assert_eq!(parse_rules("// only a comment\n").unwrap().len(), 0);
}

#[test]
fn comment_without_newline_at_end_is_refused() {
    assert_eq!(parse_rules("// no newline").unwrap_err(), ParseError::Syntax);
}

#[test]
fn missing_closing_brace_fails_whole_file() {
    let text = "azure {\n\tlocation = \"uksouth\"\n}\nazure.rg {\n\tname = \"x\"\n";
    assert_eq!(parse_rules(text).unwrap_err(), ParseError::Syntax);
}

#[test]
fn unterminated_regex_fails_whole_file() {
    let text = "azure {\n\tname ~= /abc\n}\n";
    assert_eq!(parse_rules(text).unwrap_err(), ParseError::Syntax);
}

#[test]
fn invalid_pattern_is_a_pattern_error() {
    let text = "azure {\n\tlocation = \"uksouth\"\n\tname ~= /a(b/\n}\n";
    assert_eq!(parse_rules(text).unwrap_err(), ParseError::Pattern("a(b".to_owned()));
}

#[test]
fn syntax_error_outranks_invalid_pattern() {
    let text = "azure {\n\tname ~= /a(b/\n}\nbroken";
    assert_eq!(parse_rules(text).unwrap_err(), ParseError::Syntax);
}

#[test]
fn quoted_value_takes_letters_only() {
    assert_eq!(parse_rules("azure { location = \"uk1\" }").unwrap_err(), ParseError::Syntax);
    assert_eq!(parse_rules("azure { location = \"\" }").unwrap_err(), ParseError::Syntax);
}

#[test]
fn block_needs_a_condition() {
    assert_eq!(parse_rules("azure { }").unwrap_err(), ParseError::Syntax);
}
